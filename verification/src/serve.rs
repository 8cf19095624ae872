//! How the daemon serves one request: which Lean server it uses, and what it answers.
use vstd::prelude::*;

use crate::json::json_print;
use crate::repr::{group_views, views};
use crate::text::{cat2, same_text};
use crate::wire::{error_reply, error_tree, reply_line, reply_tree, LeanMessage, MessageV};

verus! {

broadcast use group_views;

/// The proof build that a server was started for.
#[derive(Debug)]
pub struct Build {
    /// The fingerprint of the proof environment.
    pub fingerprint: String,
    /// Where its compiled files are.
    pub root: String,
}

pub ghost struct BuildV {
    pub fingerprint: Seq<char>,
    pub root: Seq<char>,
}

impl View for Build {
    type V = BuildV;

    open spec fn view(&self) -> BuildV {
        BuildV { fingerprint: self.fingerprint@, root: self.root@ }
    }
}

/// Whether a request needs another server than the current one: any difference in the build does.
pub fn must_replace(current: Option<&Build>, wanted: &Build) -> (r: bool)
    ensures
        r == (match current {
            Some(b) => b@ != wanted@,
            None => true,
        }),
{
    match current {
        Some(b) => !same_text(b.fingerprint.as_str(), wanted.fingerprint.as_str()) || !same_text(
            b.root.as_str(),
            wanted.root.as_str(),
        ),
        None => true,
    }
}

/// The reply where a server cannot be started, at first or in place of one that has exited.
pub fn spawn_failure(again: bool, error: &str) -> (r: String)
    ensures
        r@ == json_print(
            error_tree(
                (if again {
                    "lean server respawn failed: "@
                } else {
                    "lean server spawn failed: "@
                }) + error@,
            ),
        ),
{
    let message = if again {
        cat2("lean server respawn failed: ", error)
    } else {
        cat2("lean server spawn failed: ", error)
    };
    error_reply(message.as_str())
}

/// What is left to do after a check.
#[derive(Debug)]
pub enum Settled {
    /// See that the build is still what it was, and answer with this line.
    Validate(String),
    /// Replace the server, whose documents may no longer be what they are taken for, and answer
    /// with this line.
    Restart(String),
}

pub ghost enum SettledV {
    Validate(Seq<char>),
    Restart(Seq<char>),
}

impl View for Settled {
    type V = SettledV;

    open spec fn view(&self) -> SettledV {
        match *self {
            Settled::Validate(s) => SettledV::Validate(s@),
            Settled::Restart(s) => SettledV::Restart(s@),
        }
    }
}

pub open spec fn settled(result: Result<Seq<MessageV>, Seq<char>>) -> SettledV {
    match result {
        Ok(messages) => SettledV::Validate(json_print(reply_tree(messages))),
        Err(error) => SettledV::Restart(json_print(error_tree(error))),
    }
}

pub fn settle(result: &Result<Vec<LeanMessage>, String>) -> (r: Settled)
    ensures
        r@ == settled(
            match *result {
                Ok(messages) => Ok(views(messages@)),
                Err(error) => Err(error@),
            },
        ),
{
    match result {
        Ok(messages) => Settled::Validate(reply_line(messages)),
        Err(error) => Settled::Restart(error_reply(error.as_str())),
    }
}

/// The answer, where the build may have changed under the check.
pub fn confirm(validation: Result<(), String>, line: String) -> (r: String)
    ensures
        r@ == (match validation {
            Ok(_) => line@,
            Err(error) => json_print(error_tree(error@)),
        }),
{
    match validation {
        Ok(_) => line,
        Err(error) => error_reply(error.as_str()),
    }
}

} // verus!
