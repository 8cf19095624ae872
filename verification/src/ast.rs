//! The typed syntax tree of a checked Sable program.
use vstd::prelude::*;

use crate::repr::Repr;
use crate::span::Span;
use crate::text::{cat2, cat3, owned, usize_decimal};
use crate::text::nat_text;

verus! {

/// A machine integer type, or a type parameter that stands for one in a template.
#[derive(Clone, Copy, Debug, PartialEq, Eq, Structural)]
pub enum IntTy {
    I8,
    I16,
    I32,
    I64,
    U8,
    U16,
    U32,
    U64,
    TParam(usize),
}

/// Bytes and alignment of a stored value.
#[derive(Clone, Copy, Debug, PartialEq, Eq, Structural)]
pub struct StorageLayout {
    pub size: i128,
    pub align: i128,
}

/// Identity of a type parameter.
#[derive(Clone, Copy, Debug, PartialEq, Eq, Structural)]
pub struct TypeParamId(pub usize);

#[derive(Clone, Copy, Debug, PartialEq, Eq, Structural)]
pub enum Mutability {
    Shared,
    Mut,
}

/// Kinds of must-consume authority.
#[derive(Clone, Copy, Debug, PartialEq, Eq, Structural)]
pub enum ResKind {
    RawSpan,
    SystemDealloc,
    PointsToU64,
    PointsToRecord(usize),
    ResourceMapPointsToU64,
    ResourceMapPointsToRecord(usize),
    World,
    Uart,
    OpenFile,
}

/// A checked type.
#[derive(Debug, PartialEq, Eq)]
pub enum Ty {
    Int(IntTy),
    Bool,
    Param(TypeParamId),
    Class(usize),
    Record(usize),
    Array(Box<Ty>),
    Slots(Box<Ty>),
    Option(Box<Ty>),
    OptionRaw(usize),
    Res(ResKind),
    Raw(IntTy),
    RawRecord(usize),
    Borrow(Box<Ty>, Mutability),
    Unit,
}

/// How a payload is carried by an option or an array.
#[derive(Clone, Copy, Debug, PartialEq, Eq, Structural)]
pub enum PayloadFamily {
    Value,
    Record,
    OptionOfValue,
    Param,
    Noncanonical,
    Unsupported,
}

#[derive(Clone, Copy, Debug, PartialEq, Eq, Structural)]
pub enum UnOp {
    Neg,
    Not,
}

#[derive(Clone, Copy, Debug, PartialEq, Eq, Structural)]
pub enum BinOp {
    Add,
    Sub,
    Mul,
    Div,
    Rem,
    Lt,
    Le,
    Gt,
    Ge,
    Eq,
    Ne,
    And,
    Or,
}

/// Operations on owner slots.
#[derive(Clone, Debug)]
pub enum SlotOp {
    Alloc { elem: Ty },
    Put,
    Take,
    Len,
}

/// Raw-memory operations.
#[derive(Clone, Copy, Debug, PartialEq, Eq, Structural)]
pub enum RawOp {
    Offset,
    CastRecord(usize),
    PointerOffsetRecord(usize),
    Load8,
    Store8,
    Copy,
    IntoCellU64,
    FromCellU64,
    IntoFreeHeader,
    FromFreeHeader,
    HeaderInit,
    HeaderSize,
    HeaderNext,
    HeaderClear,
    CellInitU64,
    CellReadU64,
    CellTakeU64,
    CellDropU64,
    IntoCellRecord(usize),
    FromCellRecord(usize),
    CellInitRecord(usize),
    CellReadRecord(usize),
    CellTakeRecord(usize),
    CellDropRecord(usize),
}

/// Resource operations.
#[derive(Clone, Copy, Debug, PartialEq, Eq, Structural)]
pub enum ResOp {
    TestUart,
    OpenFileOf,
    ResourceMapTake,
    ResourceMapPut,
    SplitOff,
    Join,
    TestWorld,
    AllocatorCreate,
    AllocatorDestroy,
    AllocatorTake,
    AllocatorPut,
    AllocatorTakeFree,
    AllocatorPutFree,
    AllocatorTakeHeader,
    AllocatorPutHeader,
    AllocatorStepHeader,
    FreeBlockSplit,
    FreeBlockJoin,
    FreeBlockLease,
    BlockLeaseFree,
    ResourceMapEmpty,
}

/// Device operations.
#[derive(Clone, Copy, Debug, PartialEq, Eq, Structural)]
pub enum DeviceOp {
    UartStatus,
    UartWrite,
}

#[derive(Clone, Copy, Debug, PartialEq, Eq, Structural)]
pub enum SelfKind {
    Shared,
    Mut,
}

#[derive(Clone, Copy, Debug, PartialEq, Eq, Structural)]
pub enum ClauseKind {
    Pre,
    Post,
    Invariant,
    Variant,
    Assert,
}

/// One contract clause, as written.
#[derive(Clone, Debug)]
pub struct Clause {
    pub kind: ClauseKind,
    pub label: Option<String>,
    pub fact: bool,
    pub unfold: bool,
    pub text: String,
    pub span: Span,
    pub line_span: Span,
}

/// One expression, with its checked type once it has one.
#[derive(Debug)]
pub struct Expr {
    pub kind: ExprKind,
    pub span: Span,
    pub ty: Option<Ty>,
}

#[allow(inconsistent_fields)]
#[derive(Debug)]
pub enum ExprKind {
    IntLit(i128),
    BoolLit(bool),
    Var(String),
    Unary { op: UnOp, operand: Box<Expr> },
    Binary { op: BinOp, op_span: Span, lhs: Box<Expr>, rhs: Box<Expr> },
    Widen { target: IntTy, arg: Box<Expr> },
    Narrow { target: IntTy, arg: Box<Expr> },
    IsSome { operand: Box<Expr> },
    OptValue { operand: Box<Expr> },
    SomeE(Box<Expr>),
    NoneE,
    OptTake { option: String, option_span: Span },
    Call { callee: String, callee_span: Span, type_args: Vec<Ty>, args: Vec<Expr> },
    CtorCall { class: String, class_span: Span, type_args: Vec<Ty>, init: String, args: Vec<Expr> },
    MethodCall { recv: String, recv_span: Span, method: String, method_span: Span, args: Vec<Expr> },
    TraitCall { method: String, args: Vec<Expr> },
    RawOp { op: RawOp, args: Vec<Expr> },
    DeviceOp { op: DeviceOp, args: Vec<Expr> },
    ResOp { op: ResOp, args: Vec<Expr> },
    SlotOp { op: SlotOp, op_span: Span, args: Vec<Expr> },
    RecordLit { record: String, args: Vec<Expr> },
    ArrayLit(Vec<Expr>),
    AllocArray { elem: Ty, len: Box<Expr>, init: Box<Expr> },
    Index { array: String, array_span: Span, index: Box<Expr> },
    SelfFieldIndex { field: String, index: Box<Expr> },
    ClassFieldIndex { obj: String, obj_span: Span, field: String, index: Box<Expr> },
    Len { array: String },
    SelfField { field: String },
    SelfFieldLen { field: String },
    ClassField { obj: String, obj_span: Span, field: String },
    RecordField { obj: String, obj_span: Span, field: String },
    ClassFieldLen { obj: String, field: String },
    Borrow { array: String, field: Option<String>, mutable: bool },
}

#[allow(inconsistent_fields)]
#[derive(Debug)]
pub enum Stmt {
    Decl { ty: Ty, name: String, name_span: Span, init: Option<Expr>, mutable: bool },
    VarDecl { name: String, name_span: Span, init: Expr, ty: Option<Ty>, mutable: bool },
    Assign { name: String, name_span: Span, value: Expr },
    If { cond: Expr, then_block: Vec<Stmt>, else_block: Option<Vec<Stmt>> },
    Return { value: Option<Expr>, span: Span },
    ExprStmt(Expr),
    Assert(Clause),
    FieldAssign { field: String, field_span: Span, value: Expr },
    FieldStore { field: String, field_span: Span, index: Expr, value: Expr },
    Store { array: String, array_span: Span, index: Expr, value: Expr },
    While {
        cond: Expr,
        invariants: Vec<Clause>,
        variant: Option<Clause>,
        kw_span: Span,
        body: Vec<Stmt>,
    },
    Unsafe { kw_span: Span, body: Vec<Stmt> },
    StaticAlloc {
        kw_span: Span,
        size: Expr,
        ptr: String,
        ptr_span: Span,
        res: String,
        res_span: Span,
    },
    SystemAlloc {
        kw_span: Span,
        size: Expr,
        ptr: String,
        ptr_span: Span,
        res: String,
        res_span: Span,
        release: String,
        release_span: Span,
    },
    SystemDealloc { kw_span: Span, ptr: Expr, res: Expr, release: Expr },
    Expose {
        kw_span: Span,
        array: String,
        array_span: Span,
        mutable: bool,
        ptr: String,
        ptr_span: Span,
        res: String,
        res_span: Span,
        body: Vec<Stmt>,
    },
}

#[derive(Clone, Debug)]
pub struct Param {
    pub name: String,
    pub ty: Ty,
    pub span: Span,
    pub consumes: bool,
}

/// Identity of an audited foreign body.
#[derive(Clone, Debug)]
pub struct ForeignInfo {
    pub audit_id: String,
}

#[derive(Debug)]
pub struct FnDecl {
    /// Present exactly when the function has an audited foreign body and no Sable one.
    pub foreign: Option<ForeignInfo>,
    pub name: String,
    pub name_span: Span,
    pub type_params: Vec<String>,
    pub params: Vec<Param>,
    pub ret: Ty,
    pub pres: Vec<Clause>,
    pub posts: Vec<Clause>,
    pub body: Vec<Stmt>,
    pub span: Span,
}

#[derive(Clone, Debug)]
pub struct Field {
    pub name: String,
    pub ty: Ty,
    pub span: Span,
    pub must_consume: bool,
}

#[derive(Debug)]
pub struct Method {
    pub self_kind: SelfKind,
    pub f: FnDecl,
}

#[derive(Debug)]
pub struct ClassDecl {
    pub name: String,
    pub name_span: Span,
    pub type_params: Vec<String>,
    pub fields: Vec<Field>,
    pub invariants: Vec<Clause>,
    pub inits: Vec<FnDecl>,
    pub methods: Vec<Method>,
    pub deinit: Option<Vec<Stmt>>,
    pub span: Span,
}

#[derive(Clone, Debug)]
pub struct RecordDecl {
    pub name: String,
    pub fields: Vec<Field>,
    pub layout: StorageLayout,
}

/// One program: executable declarations, and the templates they were made from.
#[derive(Debug)]
pub struct Program {
    pub fns: Vec<FnDecl>,
    pub fn_templates: Vec<FnDecl>,
    pub classes: Vec<ClassDecl>,
    pub class_templates: Vec<ClassDecl>,
    pub records: Vec<RecordDecl>,
}

impl TypeParamId {
    pub fn from_legacy(index: usize) -> (r: TypeParamId)
        ensures
            r == TypeParamId(index),
    {
        TypeParamId(index)
    }
}

/// Spelling of an integer type.
pub open spec fn int_ty_name(ty: IntTy) -> Seq<char> {
    match ty {
        IntTy::I8 => "i8"@,
        IntTy::I16 => "i16"@,
        IntTy::I32 => "i32"@,
        IntTy::I64 => "i64"@,
        IntTy::U8 => "u8"@,
        IntTy::U16 => "u16"@,
        IntTy::U32 => "u32"@,
        IntTy::U64 => "u64"@,
        IntTy::TParam(n) => "T"@ + nat_text(n as nat),
    }
}

/// Tag of an integer type in diagnostics about a plan.
pub open spec fn int_ty_tag(ty: IntTy) -> Seq<char> {
    match ty {
        IntTy::I8 => "I8"@,
        IntTy::I16 => "I16"@,
        IntTy::I32 => "I32"@,
        IntTy::I64 => "I64"@,
        IntTy::U8 => "U8"@,
        IntTy::U16 => "U16"@,
        IntTy::U32 => "U32"@,
        IntTy::U64 => "U64"@,
        IntTy::TParam(n) => "TParam("@ + nat_text(n as nat) + ")"@,
    }
}

impl IntTy {
    /// Whether the type has negative values.
    pub open spec fn is_signed(self) -> bool {
        self is I8 || self is I16 || self is I32 || self is I64
    }

    /// Width in bytes; a parameter has none.
    pub open spec fn width(self) -> int {
        match self {
            IntTy::I8 | IntTy::U8 => 1,
            IntTy::I16 | IntTy::U16 => 2,
            IntTy::I32 | IntTy::U32 => 4,
            IntTy::I64 | IntTy::U64 => 8,
            IntTy::TParam(_) => 0,
        }
    }

    /// Least value of the type.
    pub open spec fn least(self) -> int {
        match self {
            IntTy::I8 => -0x80,
            IntTy::I16 => -0x8000,
            IntTy::I32 => -0x8000_0000,
            IntTy::I64 => -0x8000_0000_0000_0000,
            _ => 0,
        }
    }

    /// Greatest value of the type.
    pub open spec fn greatest(self) -> int {
        match self {
            IntTy::I8 => 0x7f,
            IntTy::I16 => 0x7fff,
            IntTy::I32 => 0x7fff_ffff,
            IntTy::I64 => 0x7fff_ffff_ffff_ffff,
            IntTy::U8 => 0xff,
            IntTy::U16 => 0xffff,
            IntTy::U32 => 0xffff_ffff,
            IntTy::U64 => 0xffff_ffff_ffff_ffff,
            IntTy::TParam(_) => 0,
        }
    }

    pub fn signed(self) -> (r: bool)
        ensures
            r == self.is_signed(),
    {
        matches!(self, IntTy::I8 | IntTy::I16 | IntTy::I32 | IntTy::I64)
    }

    pub fn min(self) -> (r: i128)
        ensures
            r == self.least(),
    {
        match self {
            IntTy::I8 => -0x80,
            IntTy::I16 => -0x8000,
            IntTy::I32 => -0x8000_0000,
            IntTy::I64 => -0x8000_0000_0000_0000,
            _ => 0,
        }
    }

    pub fn max(self) -> (r: i128)
        ensures
            r == self.greatest(),
    {
        match self {
            IntTy::I8 => 0x7f,
            IntTy::I16 => 0x7fff,
            IntTy::I32 => 0x7fff_ffff,
            IntTy::I64 => 0x7fff_ffff_ffff_ffff,
            IntTy::U8 => 0xff,
            IntTy::U16 => 0xffff,
            IntTy::U32 => 0xffff_ffff,
            IntTy::U64 => 0xffff_ffff_ffff_ffff,
            IntTy::TParam(_) => 0,
        }
    }

    pub open spec fn spec_layout(self) -> StorageLayout {
        StorageLayout { size: self.width() as i128, align: self.width() as i128 }
    }

    /// Storage of one value: its width, aligned to itself.
    pub fn layout(self) -> (r: StorageLayout)
        ensures
            r == self.spec_layout(),
    {
        let width: i128 = match self {
            IntTy::I8 | IntTy::U8 => 1,
            IntTy::I16 | IntTy::U16 => 2,
            IntTy::I32 | IntTy::U32 => 4,
            IntTy::I64 | IntTy::U64 => 8,
            IntTy::TParam(_) => 0,
        };
        StorageLayout { size: width, align: width }
    }

    pub fn name(self) -> (r: String)
        ensures
            r@ == int_ty_name(self),
    {
        match self {
            IntTy::I8 => owned("i8"),
            IntTy::I16 => owned("i16"),
            IntTy::I32 => owned("i32"),
            IntTy::I64 => owned("i64"),
            IntTy::U8 => owned("u8"),
            IntTy::U16 => owned("u16"),
            IntTy::U32 => owned("u32"),
            IntTy::U64 => owned("u64"),
            IntTy::TParam(n) => cat2("T", usize_decimal(n).as_str()),
        }
    }

    pub fn tag(self) -> (r: String)
        ensures
            r@ == int_ty_tag(self),
    {
        match self {
            IntTy::I8 => owned("I8"),
            IntTy::I16 => owned("I16"),
            IntTy::I32 => owned("I32"),
            IntTy::I64 => owned("I64"),
            IntTy::U8 => owned("U8"),
            IntTy::U16 => owned("U16"),
            IntTy::U32 => owned("U32"),
            IntTy::U64 => owned("U64"),
            IntTy::TParam(n) => cat3("TParam(", usize_decimal(n).as_str(), ")"),
        }
    }
}

/// Spelling of a resource kind.
pub open spec fn res_kind_name(kind: ResKind) -> Seq<char> {
    match kind {
        ResKind::RawSpan => "raw_span"@,
        ResKind::SystemDealloc => "system_dealloc"@,
        ResKind::PointsToU64 => "points_to_u64"@,
        ResKind::PointsToRecord(n) => "points_to_record "@ + nat_text(n as nat),
        ResKind::ResourceMapPointsToU64 => "resource_map points_to_u64"@,
        ResKind::ResourceMapPointsToRecord(n) => "resource_map points_to_record "@ + nat_text(
            n as nat,
        ),
        ResKind::World => "world"@,
        ResKind::Uart => "uart"@,
        ResKind::OpenFile => "open_file"@,
    }
}

impl ResKind {
    pub fn name(self) -> (r: String)
        ensures
            r@ == res_kind_name(self),
    {
        match self {
            ResKind::RawSpan => owned("raw_span"),
            ResKind::SystemDealloc => owned("system_dealloc"),
            ResKind::PointsToU64 => owned("points_to_u64"),
            ResKind::PointsToRecord(n) => cat2("points_to_record ", usize_decimal(n).as_str()),
            ResKind::ResourceMapPointsToU64 => owned("resource_map points_to_u64"),
            ResKind::ResourceMapPointsToRecord(n) => cat2(
                "resource_map points_to_record ",
                usize_decimal(n).as_str(),
            ),
            ResKind::World => owned("world"),
            ResKind::Uart => owned("uart"),
            ResKind::OpenFile => owned("open_file"),
        }
    }
}

/// Spelling of a type.
pub open spec fn ty_name(ty: Ty) -> Seq<char>
    decreases ty,
{
    match ty {
        Ty::Int(i) => int_ty_name(i),
        Ty::Bool => "bool"@,
        Ty::Param(p) => "param "@ + nat_text(p.0 as nat),
        Ty::Class(n) => "class "@ + nat_text(n as nat),
        Ty::Record(n) => "record "@ + nat_text(n as nat),
        Ty::Array(e) => "["@ + ty_name(*e) + "]"@,
        Ty::Slots(e) => "slots<"@ + ty_name(*e) + ">"@,
        Ty::Option(e) => "option<"@ + ty_name(*e) + ">"@,
        Ty::OptionRaw(n) => "option<raw record "@ + nat_text(n as nat) + ">"@,
        Ty::Res(k) => res_kind_name(k),
        Ty::Raw(i) => "raw<"@ + int_ty_name(i) + ">"@,
        Ty::RawRecord(n) => "raw<record "@ + nat_text(n as nat) + ">"@,
        Ty::Borrow(e, Mutability::Shared) => "&"@ + ty_name(*e),
        Ty::Borrow(e, Mutability::Mut) => "&mut "@ + ty_name(*e),
        Ty::Unit => "unit"@,
    }
}

impl Clone for Ty {
    fn clone(&self) -> (r: Self)
        ensures
            r == *self,
        decreases self,
    {
        match self {
            Ty::Int(i) => Ty::Int(*i),
            Ty::Bool => Ty::Bool,
            Ty::Param(p) => Ty::Param(*p),
            Ty::Class(n) => Ty::Class(*n),
            Ty::Record(n) => Ty::Record(*n),
            Ty::Array(e) => Ty::Array(Box::new((&**e).clone())),
            Ty::Slots(e) => Ty::Slots(Box::new((&**e).clone())),
            Ty::Option(e) => Ty::Option(Box::new((&**e).clone())),
            Ty::OptionRaw(n) => Ty::OptionRaw(*n),
            Ty::Res(k) => Ty::Res(*k),
            Ty::Raw(i) => Ty::Raw(*i),
            Ty::RawRecord(n) => Ty::RawRecord(*n),
            Ty::Borrow(e, m) => Ty::Borrow(Box::new((&**e).clone()), *m),
            Ty::Unit => Ty::Unit,
        }
    }
}

impl View for Ty {
    type V = Ty;

    open spec fn view(&self) -> Ty {
        *self
    }
}

impl Repr for Ty {
    fn copy(&self) -> (r: Self) {
        self.clone()
    }

    fn same(&self, other: &Self) -> (r: bool) {
        self.same_ty(other)
    }
}

impl Ty {
    /// Whether two types are the same type.
    pub fn same_ty(&self, other: &Ty) -> (r: bool)
        ensures
            r == (*self == *other),
        decreases self,
    {
        match (self, other) {
            (Ty::Int(a), Ty::Int(b)) => *a == *b,
            (Ty::Bool, Ty::Bool) => true,
            (Ty::Param(a), Ty::Param(b)) => *a == *b,
            (Ty::Class(a), Ty::Class(b)) => *a == *b,
            (Ty::Record(a), Ty::Record(b)) => *a == *b,
            (Ty::Array(a), Ty::Array(b)) => a.same_ty(b),
            (Ty::Slots(a), Ty::Slots(b)) => a.same_ty(b),
            (Ty::Option(a), Ty::Option(b)) => a.same_ty(b),
            (Ty::OptionRaw(a), Ty::OptionRaw(b)) => *a == *b,
            (Ty::Res(a), Ty::Res(b)) => *a == *b,
            (Ty::Raw(a), Ty::Raw(b)) => *a == *b,
            (Ty::RawRecord(a), Ty::RawRecord(b)) => *a == *b,
            (Ty::Borrow(a, m), Ty::Borrow(b, n)) => *m == *n && a.same_ty(b),
            (Ty::Unit, Ty::Unit) => true,
            _ => false,
        }
    }

    pub fn name(&self) -> (r: String)
        ensures
            r@ == ty_name(*self),
        decreases self,
    {
        match self {
            Ty::Int(i) => i.name(),
            Ty::Bool => owned("bool"),
            Ty::Param(p) => cat2("param ", usize_decimal(p.0).as_str()),
            Ty::Class(n) => cat2("class ", usize_decimal(*n).as_str()),
            Ty::Record(n) => cat2("record ", usize_decimal(*n).as_str()),
            Ty::Array(e) => cat3("[", e.name().as_str(), "]"),
            Ty::Slots(e) => cat3("slots<", e.name().as_str(), ">"),
            Ty::Option(e) => cat3("option<", e.name().as_str(), ">"),
            Ty::OptionRaw(n) => cat3("option<raw record ", usize_decimal(*n).as_str(), ">"),
            Ty::Res(k) => k.name(),
            Ty::Raw(i) => cat3("raw<", i.name().as_str(), ">"),
            Ty::RawRecord(n) => cat3("raw<record ", usize_decimal(*n).as_str(), ">"),
            Ty::Borrow(e, Mutability::Shared) => cat2("&", e.name().as_str()),
            Ty::Borrow(e, Mutability::Mut) => cat2("&mut ", e.name().as_str()),
            Ty::Unit => owned("unit"),
        }
    }

    pub fn array(elem: Ty) -> (r: Ty)
        ensures
            r == Ty::Array(Box::new(elem)),
    {
        Ty::Array(Box::new(elem))
    }

    pub fn array_ref(elem: Ty, mutability: Mutability) -> (r: Ty)
        ensures
            r == Ty::Borrow(Box::new(Ty::Array(Box::new(elem))), mutability),
    {
        Ty::Borrow(Box::new(Ty::Array(Box::new(elem))), mutability)
    }

    pub fn slots(elem: Ty) -> (r: Ty)
        ensures
            r == Ty::Slots(Box::new(elem)),
    {
        Ty::Slots(Box::new(elem))
    }

    pub fn option(payload: Ty) -> (r: Ty)
        ensures
            r == Ty::Option(Box::new(payload)),
    {
        Ty::Option(Box::new(payload))
    }

    /// Option over an owned array.
    pub fn affine_array_option(elem: Ty) -> (r: Ty)
        ensures
            r == Ty::Option(Box::new(Ty::Array(Box::new(elem)))),
    {
        Ty::Option(Box::new(Ty::Array(Box::new(elem))))
    }

    /// Whether a value of the type has exactly one owner at a time.
    pub open spec fn affine(self) -> bool
        decreases self,
    {
        match self {
            Ty::Class(_) | Ty::Array(_) | Ty::Slots(_) | Ty::Res(_) => true,
            Ty::Option(payload) => payload.affine(),
            _ => false,
        }
    }

    pub fn is_affine(&self) -> (r: bool)
        ensures
            r == self.affine(),
        decreases self,
    {
        match self {
            Ty::Class(_) | Ty::Array(_) | Ty::Slots(_) | Ty::Res(_) => true,
            Ty::Option(payload) => payload.is_affine(),
            _ => false,
        }
    }

    /// Whether the type is an option that owns its payload.
    pub open spec fn affine_option(self) -> bool {
        self is Option && self.affine()
    }

    pub fn is_affine_option(&self) -> (r: bool)
        ensures
            r == self.affine_option(),
    {
        matches!(self, Ty::Option(_)) && self.is_affine()
    }

    /// The payload of an option that owns it.
    pub open spec fn affine_payload(self) -> Option<Ty> {
        match self {
            Ty::Option(payload) => if self.affine() {
                Some(*payload)
            } else {
                None
            },
            _ => None,
        }
    }

    pub fn as_affine_option_payload(&self) -> (r: Option<Ty>)
        ensures
            r == self.affine_payload(),
    {
        match self {
            Ty::Option(payload) => if self.is_affine() {
                Some((&**payload).clone())
            } else {
                None
            },
            _ => None,
        }
    }

    /// Whether the type is an owned array of `elem`.
    pub fn is_owned_array_of(&self, elem: &Ty) -> (r: bool)
        ensures
            r == (*self == Ty::Array(Box::new(*elem))),
    {
        match self {
            Ty::Array(e) => e.same_ty(elem),
            _ => false,
        }
    }

    /// The array type that the type is or borrows, and whether it is borrowed.
    pub open spec fn spec_as_array(self) -> Option<(Ty, Option<Mutability>)> {
        match self {
            Ty::Array(e) => Some((*e, None)),
            Ty::Borrow(inner, m) => match *inner {
                Ty::Array(e) => Some((*e, Some(m))),
                _ => None,
            },
            _ => None,
        }
    }

    pub fn as_array(&self) -> (r: Option<(Ty, Option<Mutability>)>)
        ensures
            r == self.spec_as_array(),
    {
        match self {
            Ty::Array(e) => Some(((&**e).clone(), None)),
            Ty::Borrow(inner, m) => match &**inner {
                Ty::Array(e) => Some(((&**e).clone(), Some(*m))),
                _ => None,
            },
            _ => None,
        }
    }

    /// Whether the type is an array of `elem`, owned or borrowed.
    pub open spec fn array_of(self, elem: Ty) -> bool {
        self.spec_as_array() matches Some((e, _)) && e == elem
    }

    pub fn is_array_of(&self, elem: &Ty) -> (r: bool)
        ensures
            r == self.array_of(*elem),
    {
        match self.as_array() {
            Some((e, _)) => e.same_ty(elem),
            None => false,
        }
    }

    /// What the type refers to: itself, unless it is a borrow.
    pub open spec fn spec_referent(self) -> Ty {
        match self {
            Ty::Borrow(inner, _) => *inner,
            _ => self,
        }
    }

    pub fn referent(&self) -> (r: &Ty)
        ensures
            *r == self.spec_referent(),
    {
        match self {
            Ty::Borrow(inner, _) => &**inner,
            _ => self,
        }
    }

    pub open spec fn unique_borrow(self) -> bool {
        self matches Ty::Borrow(_, Mutability::Mut)
    }

    pub fn is_unique_borrow(&self) -> (r: bool)
        ensures
            r == self.unique_borrow(),
    {
        matches!(self, Ty::Borrow(_, Mutability::Mut))
    }

    pub fn is_resource(&self) -> (r: bool)
        ensures
            r == (self is Res),
    {
        matches!(self, Ty::Res(_))
    }

    /// How a value of the type is carried as a payload.
    pub open spec fn family(self) -> PayloadFamily {
        match self {
            Ty::Int(IntTy::TParam(_)) => PayloadFamily::Noncanonical,
            Ty::Int(_) | Ty::Bool => PayloadFamily::Value,
            Ty::Record(_) => PayloadFamily::Record,
            Ty::Param(_) => PayloadFamily::Param,
            Ty::Option(p) => match *p {
                Ty::Int(IntTy::TParam(_)) => PayloadFamily::Unsupported,
                Ty::Int(_) | Ty::Bool => PayloadFamily::OptionOfValue,
                _ => PayloadFamily::Unsupported,
            },
            _ => PayloadFamily::Unsupported,
        }
    }

    pub fn payload_family(&self) -> (r: PayloadFamily)
        ensures
            r == self.family(),
    {
        match self {
            Ty::Int(IntTy::TParam(_)) => PayloadFamily::Noncanonical,
            Ty::Int(_) | Ty::Bool => PayloadFamily::Value,
            Ty::Record(_) => PayloadFamily::Record,
            Ty::Param(_) => PayloadFamily::Param,
            Ty::Option(p) => match &**p {
                Ty::Int(IntTy::TParam(_)) => PayloadFamily::Unsupported,
                Ty::Int(_) | Ty::Bool => PayloadFamily::OptionOfValue,
                _ => PayloadFamily::Unsupported,
            },
            _ => PayloadFamily::Unsupported,
        }
    }
}

impl RawOp {
    /// Whether the operation reads, writes or retypes memory rather than computing an address.
    pub open spec fn memory(self) -> bool {
        !(self is Offset || self is CastRecord || self is PointerOffsetRecord)
    }

    pub fn touches_memory(self) -> (r: bool)
        ensures
            r == self.memory(),
    {
        !matches!(self, RawOp::Offset | RawOp::CastRecord(_) | RawOp::PointerOffsetRecord(_))
    }

    pub open spec fn spec_label(self) -> Seq<char> {
        match self {
            RawOp::Offset => "Offset"@,
            RawOp::CastRecord(n) => "CastRecord("@ + nat_text(n as nat) + ")"@,
            RawOp::PointerOffsetRecord(n) => "PointerOffsetRecord("@ + nat_text(n as nat) + ")"@,
            RawOp::Load8 => "Load8"@,
            RawOp::Store8 => "Store8"@,
            RawOp::Copy => "Copy"@,
            RawOp::IntoCellU64 => "IntoCellU64"@,
            RawOp::FromCellU64 => "FromCellU64"@,
            RawOp::IntoFreeHeader => "IntoFreeHeader"@,
            RawOp::FromFreeHeader => "FromFreeHeader"@,
            RawOp::HeaderInit => "HeaderInit"@,
            RawOp::HeaderSize => "HeaderSize"@,
            RawOp::HeaderNext => "HeaderNext"@,
            RawOp::HeaderClear => "HeaderClear"@,
            RawOp::CellInitU64 => "CellInitU64"@,
            RawOp::CellReadU64 => "CellReadU64"@,
            RawOp::CellTakeU64 => "CellTakeU64"@,
            RawOp::CellDropU64 => "CellDropU64"@,
            RawOp::IntoCellRecord(n) => "IntoCellRecord("@ + nat_text(n as nat) + ")"@,
            RawOp::FromCellRecord(n) => "FromCellRecord("@ + nat_text(n as nat) + ")"@,
            RawOp::CellInitRecord(n) => "CellInitRecord("@ + nat_text(n as nat) + ")"@,
            RawOp::CellReadRecord(n) => "CellReadRecord("@ + nat_text(n as nat) + ")"@,
            RawOp::CellTakeRecord(n) => "CellTakeRecord("@ + nat_text(n as nat) + ")"@,
            RawOp::CellDropRecord(n) => "CellDropRecord("@ + nat_text(n as nat) + ")"@,
        }
    }

    /// Name of the operation in a trap identity.
    pub fn label(self) -> (r: String)
        ensures
            r@ == self.spec_label(),
    {
        match self {
            RawOp::Offset => owned("Offset"),
            RawOp::CastRecord(n) => cat3("CastRecord(", usize_decimal(n).as_str(), ")"),
            RawOp::PointerOffsetRecord(n) => cat3(
                "PointerOffsetRecord(",
                usize_decimal(n).as_str(),
                ")",
            ),
            RawOp::Load8 => owned("Load8"),
            RawOp::Store8 => owned("Store8"),
            RawOp::Copy => owned("Copy"),
            RawOp::IntoCellU64 => owned("IntoCellU64"),
            RawOp::FromCellU64 => owned("FromCellU64"),
            RawOp::IntoFreeHeader => owned("IntoFreeHeader"),
            RawOp::FromFreeHeader => owned("FromFreeHeader"),
            RawOp::HeaderInit => owned("HeaderInit"),
            RawOp::HeaderSize => owned("HeaderSize"),
            RawOp::HeaderNext => owned("HeaderNext"),
            RawOp::HeaderClear => owned("HeaderClear"),
            RawOp::CellInitU64 => owned("CellInitU64"),
            RawOp::CellReadU64 => owned("CellReadU64"),
            RawOp::CellTakeU64 => owned("CellTakeU64"),
            RawOp::CellDropU64 => owned("CellDropU64"),
            RawOp::IntoCellRecord(n) => cat3("IntoCellRecord(", usize_decimal(n).as_str(), ")"),
            RawOp::FromCellRecord(n) => cat3("FromCellRecord(", usize_decimal(n).as_str(), ")"),
            RawOp::CellInitRecord(n) => cat3("CellInitRecord(", usize_decimal(n).as_str(), ")"),
            RawOp::CellReadRecord(n) => cat3("CellReadRecord(", usize_decimal(n).as_str(), ")"),
            RawOp::CellTakeRecord(n) => cat3("CellTakeRecord(", usize_decimal(n).as_str(), ")"),
            RawOp::CellDropRecord(n) => cat3("CellDropRecord(", usize_decimal(n).as_str(), ")"),
        }
    }
}

impl ResOp {
    /// Whether the operation has a failure that a program can reach at run time.
    pub open spec fn traps(self) -> bool {
        self is TestUart || self is OpenFileOf || self is ResourceMapTake || self is ResourceMapPut
    }

    pub fn may_trap(self) -> (r: bool)
        ensures
            r == self.traps(),
    {
        matches!(
            self,
            ResOp::TestUart | ResOp::OpenFileOf | ResOp::ResourceMapTake | ResOp::ResourceMapPut
        )
    }

    pub open spec fn spec_label(self) -> Seq<char> {
        match self {
            ResOp::TestUart => "TestUart"@,
            ResOp::OpenFileOf => "OpenFileOf"@,
            ResOp::ResourceMapTake => "ResourceMapTake"@,
            ResOp::ResourceMapPut => "ResourceMapPut"@,
            ResOp::SplitOff => "SplitOff"@,
            ResOp::Join => "Join"@,
            ResOp::TestWorld => "TestWorld"@,
            ResOp::AllocatorCreate => "AllocatorCreate"@,
            ResOp::AllocatorDestroy => "AllocatorDestroy"@,
            ResOp::AllocatorTake => "AllocatorTake"@,
            ResOp::AllocatorPut => "AllocatorPut"@,
            ResOp::AllocatorTakeFree => "AllocatorTakeFree"@,
            ResOp::AllocatorPutFree => "AllocatorPutFree"@,
            ResOp::AllocatorTakeHeader => "AllocatorTakeHeader"@,
            ResOp::AllocatorPutHeader => "AllocatorPutHeader"@,
            ResOp::AllocatorStepHeader => "AllocatorStepHeader"@,
            ResOp::FreeBlockSplit => "FreeBlockSplit"@,
            ResOp::FreeBlockJoin => "FreeBlockJoin"@,
            ResOp::FreeBlockLease => "FreeBlockLease"@,
            ResOp::BlockLeaseFree => "BlockLeaseFree"@,
            ResOp::ResourceMapEmpty => "ResourceMapEmpty"@,
        }
    }

    /// Name of the operation in a trap identity.
    pub fn label(self) -> (r: String)
        ensures
            r@ == self.spec_label(),
    {
        let s: &'static str = match self {
            ResOp::TestUart => "TestUart",
            ResOp::OpenFileOf => "OpenFileOf",
            ResOp::ResourceMapTake => "ResourceMapTake",
            ResOp::ResourceMapPut => "ResourceMapPut",
            ResOp::SplitOff => "SplitOff",
            ResOp::Join => "Join",
            ResOp::TestWorld => "TestWorld",
            ResOp::AllocatorCreate => "AllocatorCreate",
            ResOp::AllocatorDestroy => "AllocatorDestroy",
            ResOp::AllocatorTake => "AllocatorTake",
            ResOp::AllocatorPut => "AllocatorPut",
            ResOp::AllocatorTakeFree => "AllocatorTakeFree",
            ResOp::AllocatorPutFree => "AllocatorPutFree",
            ResOp::AllocatorTakeHeader => "AllocatorTakeHeader",
            ResOp::AllocatorPutHeader => "AllocatorPutHeader",
            ResOp::AllocatorStepHeader => "AllocatorStepHeader",
            ResOp::FreeBlockSplit => "FreeBlockSplit",
            ResOp::FreeBlockJoin => "FreeBlockJoin",
            ResOp::FreeBlockLease => "FreeBlockLease",
            ResOp::BlockLeaseFree => "BlockLeaseFree",
            ResOp::ResourceMapEmpty => "ResourceMapEmpty",
        };
        owned(s)
    }
}

impl DeviceOp {
    pub open spec fn spec_label(self) -> Seq<char> {
        match self {
            DeviceOp::UartStatus => "UartStatus"@,
            DeviceOp::UartWrite => "UartWrite"@,
        }
    }

    /// Name of the operation in a trap identity.
    pub fn label(self) -> (r: String)
        ensures
            r@ == self.spec_label(),
    {
        match self {
            DeviceOp::UartStatus => owned("UartStatus"),
            DeviceOp::UartWrite => owned("UartWrite"),
        }
    }
}

impl SlotOp {
    pub open spec fn spec_name(self) -> Seq<char> {
        match self {
            SlotOp::Alloc { .. } => "slots.alloc"@,
            SlotOp::Put => "slots.put"@,
            SlotOp::Take => "slots.take"@,
            SlotOp::Len => "slots.len"@,
        }
    }

    pub fn name(&self) -> (r: String)
        ensures
            r@ == self.spec_name(),
    {
        match self {
            SlotOp::Alloc { .. } => owned("slots.alloc"),
            SlotOp::Put => owned("slots.put"),
            SlotOp::Take => owned("slots.take"),
            SlotOp::Len => owned("slots.len"),
        }
    }
}

impl BinOp {
    /// Whether the operator compares its operands.
    pub open spec fn comparison(self) -> bool {
        self is Lt || self is Le || self is Gt || self is Ge || self is Eq || self is Ne
    }

    pub fn is_comparison(self) -> (r: bool)
        ensures
            r == self.comparison(),
    {
        matches!(self, BinOp::Lt | BinOp::Le | BinOp::Gt | BinOp::Ge | BinOp::Eq | BinOp::Ne)
    }

    pub open spec fn spec_symbol(self) -> Seq<char> {
        match self {
            BinOp::Add => "+"@,
            BinOp::Sub => "-"@,
            BinOp::Mul => "*"@,
            BinOp::Div => "/"@,
            BinOp::Rem => "%"@,
            BinOp::Lt => "<"@,
            BinOp::Le => "<="@,
            BinOp::Gt => ">"@,
            BinOp::Ge => ">="@,
            BinOp::Eq => "=="@,
            BinOp::Ne => "!="@,
            BinOp::And => "&&"@,
            BinOp::Or => "||"@,
        }
    }

    pub fn symbol(self) -> (r: &'static str)
        ensures
            r@ == self.spec_symbol(),
    {
        match self {
            BinOp::Add => "+",
            BinOp::Sub => "-",
            BinOp::Mul => "*",
            BinOp::Div => "/",
            BinOp::Rem => "%",
            BinOp::Lt => "<",
            BinOp::Le => "<=",
            BinOp::Gt => ">",
            BinOp::Ge => ">=",
            BinOp::Eq => "==",
            BinOp::Ne => "!=",
            BinOp::And => "&&",
            BinOp::Or => "||",
        }
    }
}

} // verus!
