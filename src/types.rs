//! Resolved types, wire tokens and native values, with their mathematical models.
use vstd::prelude::*;

verus! {

/// The canonical resolved type of an ABI type descriptor.
#[derive(Debug, PartialEq, Eq)]
pub enum ParamType {
    Unit,
    Bool,
    Byte,
    U8,
    U16,
    U32,
    U64,
    B256,
    String(usize),
    Array(Box<ParamType>, usize),
    Struct(Vec<ParamType>),
    Enum(EnumVariants),
}

/// The ordered variant types of an enum; [`EnumVariants::new`] builds it from a
/// non-empty sequence only.
#[derive(Debug, PartialEq, Eq)]
pub struct EnumVariants {
    pub variants: Vec<ParamType>,
}

/// A wire-level value: the shape every codec encodes into and decodes from.
#[derive(Debug, PartialEq, Eq)]
pub enum Token {
    Unit,
    Bool(bool),
    Byte(u8),
    U8(u8),
    U16(u16),
    U32(u32),
    U64(u64),
    B256([u8; 32]),
    String(String),
    Array(Vec<Token>),
    Struct(Vec<Token>),
    /// Discriminant, payload and the enum's full variant catalog.
    Enum(Box<(u8, Token, EnumVariants)>),
}

/// A native value of a resolved type: a record holds its fields in declaration
/// order, a tagged union its variant's index and payload.
#[derive(Debug, PartialEq, Eq)]
pub enum Value {
    Unit,
    Bool(bool),
    Byte(u8),
    U8(u8),
    U16(u16),
    U32(u32),
    U64(u64),
    B256([u8; 32]),
    String(String),
    Array(Vec<Value>),
    Struct(Vec<Value>),
    Enum(u8, Box<Value>),
}

/// Model of [`ParamType`].
pub enum PType {
    Unit,
    Bool,
    Byte,
    U8,
    U16,
    U32,
    U64,
    B256,
    Str(nat),
    Array(Box<PType>, nat),
    Struct(Seq<PType>),
    Enum(Seq<PType>),
}

/// Model of [`Token`].
pub enum TokenM {
    Unit,
    Bool(bool),
    Byte(u8),
    U8(u8),
    U16(u16),
    U32(u32),
    U64(u64),
    B256(Seq<u8>),
    Str(Seq<char>),
    Array(Seq<TokenM>),
    Struct(Seq<TokenM>),
    Enum(u8, Box<TokenM>, Seq<PType>),
}

/// Model of [`Value`].
pub enum ValueM {
    Unit,
    Bool(bool),
    Byte(u8),
    U8(u8),
    U16(u16),
    U32(u32),
    U64(u64),
    B256(Seq<u8>),
    Str(Seq<char>),
    Array(Seq<ValueM>),
    Struct(Seq<ValueM>),
    Enum(u8, Box<ValueM>),
}

pub open spec fn ptype_of(t: ParamType) -> PType
    decreases t, 1nat,
{
    match t {
        ParamType::Unit => PType::Unit,
        ParamType::Bool => PType::Bool,
        ParamType::Byte => PType::Byte,
        ParamType::U8 => PType::U8,
        ParamType::U16 => PType::U16,
        ParamType::U32 => PType::U32,
        ParamType::U64 => PType::U64,
        ParamType::B256 => PType::B256,
        ParamType::String(n) => PType::Str(n as nat),
        ParamType::Array(e, n) => PType::Array(Box::new(ptype_of(*e)), n as nat),
        ParamType::Struct(v) => PType::Struct(ptypes_of(v@)),
        ParamType::Enum(ev) => PType::Enum(ptypes_of(ev.variants@)),
    }
}

pub open spec fn ptypes_of(s: Seq<ParamType>) -> Seq<PType>
    decreases s, 0nat,
{
    Seq::new(s.len(), |i: int| if 0 <= i < s.len() { ptype_of(s[i]) } else { PType::Unit })
}

pub open spec fn token_of(t: Token) -> TokenM
    decreases t, 1nat,
{
    match t {
        Token::Unit => TokenM::Unit,
        Token::Bool(b) => TokenM::Bool(b),
        Token::Byte(b) => TokenM::Byte(b),
        Token::U8(x) => TokenM::U8(x),
        Token::U16(x) => TokenM::U16(x),
        Token::U32(x) => TokenM::U32(x),
        Token::U64(x) => TokenM::U64(x),
        Token::B256(b) => TokenM::B256(b@),
        Token::String(s) => TokenM::Str(s@),
        Token::Array(v) => TokenM::Array(tokens_of(v@)),
        Token::Struct(v) => TokenM::Struct(tokens_of(v@)),
        Token::Enum(sel) => TokenM::Enum(sel.0, Box::new(token_of(sel.1)), ptypes_of(sel.2.variants@)),
    }
}

pub open spec fn tokens_of(s: Seq<Token>) -> Seq<TokenM>
    decreases s, 0nat,
{
    Seq::new(s.len(), |i: int| if 0 <= i < s.len() { token_of(s[i]) } else { TokenM::Unit })
}

pub open spec fn value_of(v: Value) -> ValueM
    decreases v, 1nat,
{
    match v {
        Value::Unit => ValueM::Unit,
        Value::Bool(b) => ValueM::Bool(b),
        Value::Byte(b) => ValueM::Byte(b),
        Value::U8(x) => ValueM::U8(x),
        Value::U16(x) => ValueM::U16(x),
        Value::U32(x) => ValueM::U32(x),
        Value::U64(x) => ValueM::U64(x),
        Value::B256(b) => ValueM::B256(b@),
        Value::String(s) => ValueM::Str(s@),
        Value::Array(xs) => ValueM::Array(values_of(xs@)),
        Value::Struct(xs) => ValueM::Struct(values_of(xs@)),
        Value::Enum(d, p) => ValueM::Enum(d, Box::new(value_of(*p))),
    }
}

pub open spec fn values_of(s: Seq<Value>) -> Seq<ValueM>
    decreases s, 0nat,
{
    Seq::new(s.len(), |i: int| if 0 <= i < s.len() { value_of(s[i]) } else { ValueM::Unit })
}

impl View for ParamType {
    type V = PType;

    open spec fn view(&self) -> PType {
        ptype_of(*self)
    }
}

impl View for Token {
    type V = TokenM;

    open spec fn view(&self) -> TokenM {
        token_of(*self)
    }
}

impl View for Value {
    type V = ValueM;

    open spec fn view(&self) -> ValueM {
        value_of(*self)
    }
}

impl View for EnumVariants {
    type V = Seq<PType>;

    open spec fn view(&self) -> Seq<PType> {
        ptypes_of(self.variants@)
    }
}

impl EnumVariants {
    /// An enum has at least one variant.
    pub open spec fn wf(&self) -> bool {
        self.variants@.len() > 0
    }

    /// The variants `v`, in order; `None` when `v` is empty.
    pub fn new(v: Vec<ParamType>) -> (r: Option<EnumVariants>)
        ensures
            r is Some <==> v@.len() > 0,
            r is Some ==> r->Some_0.variants@ == v@ && r->Some_0.wf(),
    {
        if v.len() == 0 {
            None
        } else {
            Some(EnumVariants { variants: v })
        }
    }

    /// The variant types, in declaration order.
    pub fn variants(&self) -> (r: &Vec<ParamType>)
        ensures
            r@ == self.variants@,
    {
        &self.variants
    }
}

} // verus!
