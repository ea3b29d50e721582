//! How each member (field or variant) of a custom type appears in its
//! generated binding: its identifier, native type, resolved-type expression
//! and token tag.
use vstd::prelude::*;
use vstd::string::*;
use crate::abi::{CustomType, Error, ErrorKind, Property};
use crate::names::{custom_type_name, extract_custom_type_name_from_abi_property};
use crate::resolve::{resolve, parse_param};
use crate::text::{decimal, decimal_text};
use crate::types::{ParamType, PType};

verus! {

/// The snake-case form of a name, as inflector computes it.
pub uninterp spec fn snake_case_of(s: Seq<char>) -> Seq<char>;

/// Relies on inflector's `Inflector::to_snake_case` for `str`: the result
/// depends on the characters of `s` alone.
#[verifier::external_body]
pub(crate) fn to_snake_case(s: &str) -> (r: String)
    ensures
        r@ == snake_case_of(s@),
{
    inflector::Inflector::to_snake_case(s)
}

/// The token tag of a resolved type: arrays of any element type share the
/// tag `Array`, strings of any length the tag `String`.
pub open spec fn tag_text(t: PType) -> Seq<char> {
    match t {
        PType::Unit => "Unit"@,
        PType::Bool => "Bool"@,
        PType::Byte => "Byte"@,
        PType::U8 => "U8"@,
        PType::U16 => "U16"@,
        PType::U32 => "U32"@,
        PType::U64 => "U64"@,
        PType::B256 => "B256"@,
        PType::Str(_) => "String"@,
        PType::Array(_, _) => "Array"@,
        PType::Struct(_) => "Struct"@,
        PType::Enum(_) => "Enum"@,
    }
}

/// The native type of a resolved type; `leaf` names the custom type at the
/// bottom of an array of custom types.
pub open spec fn type_text(t: PType, leaf: Seq<char>) -> Seq<char>
    decreases t,
{
    match t {
        PType::Unit => "()"@,
        PType::Bool => "bool"@,
        PType::Byte => "u8"@,
        PType::U8 => "u8"@,
        PType::U16 => "u16"@,
        PType::U32 => "u32"@,
        PType::U64 => "u64"@,
        PType::B256 => "[u8 ; 32]"@,
        PType::Str(_) => "String"@,
        PType::Array(e, _) => ":: std :: vec :: Vec < "@ + type_text(*e, leaf) + " >"@,
        PType::Struct(_) => leaf,
        PType::Enum(_) => leaf,
    }
}

/// The expression that rebuilds a resolved type in generated code.
pub open spec fn param_text(t: PType, leaf: Seq<char>) -> Seq<char>
    decreases t,
{
    match t {
        PType::Str(n) => "ParamType :: String ("@ + decimal(n) + ")"@,
        PType::Array(e, n) => "ParamType :: Array (Box :: new ("@ + param_text(*e, leaf) + ") , "@
            + decimal(n) + ")"@,
        PType::Struct(_) => leaf + " :: param_type ()"@,
        PType::Enum(_) => leaf + " :: param_type ()"@,
        _ => "ParamType :: "@ + tag_text(t),
    }
}

/// Whether an array nests down to a custom type.
pub open spec fn has_custom_leaf(t: PType) -> bool
    decreases t,
{
    match t {
        PType::Array(e, _) => has_custom_leaf(*e),
        PType::Struct(_) => true,
        PType::Enum(_) => true,
        _ => false,
    }
}

/// How a member's value becomes a token.
#[derive(Clone, Copy, Debug, PartialEq, Eq)]
pub enum MemberKind {
    /// A nested struct, encoded by its own codec.
    NestedStruct,
    /// A nested enum, encoded by its own codec.
    NestedEnum,
    /// A variant without payload.
    Unit,
    /// An array, under the generic `Array` tag.
    Array,
    /// A primitive or a string, under its own tag.
    Plain,
}

/// One member of a generated type.
pub struct Member {
    pub ident: String,
    pub kind: MemberKind,
    pub ty: String,
    pub param: String,
    pub tag: String,
}

/// Model of [`Member`].
pub struct MemberM {
    pub ident: Seq<char>,
    pub kind: MemberKind,
    pub ty: Seq<char>,
    pub param: Seq<char>,
    pub tag: Seq<char>,
}

impl View for Member {
    type V = MemberM;

    open spec fn view(&self) -> MemberM {
        MemberM {
            ident: self.ident@,
            kind: self.kind,
            ty: self.ty@,
            param: self.param@,
            tag: self.tag@,
        }
    }
}

pub open spec fn members_view(ms: Seq<Member>) -> Seq<MemberM> {
    ms.map_values(|m: Member| m@)
}

/// The member that component `c` becomes under identifier `ident`; in an
/// enum a unit-typed component is a variant without payload.
pub open spec fn member_of(c: Property, ident: Seq<char>, in_enum: bool) -> Result<
    MemberM,
    (ErrorKind, Seq<char>),
> {
    match resolve(c) {
        Err(m) => Err((ErrorKind::InvalidType, m)),
        Ok(t) => match t {
            PType::Struct(_) => match custom_type_name(c.type_field@, Some(CustomType::Struct)) {
                Ok(n) => Ok(
                    MemberM {
                        ident,
                        kind: MemberKind::NestedStruct,
                        ty: n,
                        param: param_text(t, n),
                        tag: tag_text(t),
                    },
                ),
                Err(e) => Err(e),
            },
            PType::Enum(_) => match custom_type_name(c.type_field@, Some(CustomType::Enum)) {
                Ok(n) => Ok(
                    MemberM {
                        ident,
                        kind: MemberKind::NestedEnum,
                        ty: n,
                        param: param_text(t, n),
                        tag: tag_text(t),
                    },
                ),
                Err(e) => Err(e),
            },
            _ => {
                let leaf = if has_custom_leaf(t) {
                    custom_type_name(c.type_field@, None)
                } else {
                    Ok(Seq::<char>::empty())
                };
                match leaf {
                    Ok(n) => Ok(
                        MemberM {
                            ident,
                            kind: if t is Array {
                                MemberKind::Array
                            } else if in_enum && t is Unit {
                                MemberKind::Unit
                            } else {
                                MemberKind::Plain
                            },
                            ty: type_text(t, n),
                            param: param_text(t, n),
                            tag: tag_text(t),
                        },
                    ),
                    Err(e) => Err(e),
                }
            },
        },
    }
}

/// The identifier of component `c`: snake case for a struct field, as
/// declared for an enum variant.
pub open spec fn ident_of(c: Property, in_enum: bool) -> Seq<char> {
    if in_enum {
        c.name@
    } else {
        snake_case_of(c.name@)
    }
}

/// The members of `cs`, in order, or the first component's error.
pub open spec fn members_of(cs: Seq<Property>, in_enum: bool) -> Result<
    Seq<MemberM>,
    (ErrorKind, Seq<char>),
>
    decreases cs.len(),
{
    if cs.len() == 0 {
        Ok(seq![])
    } else {
        match members_of(cs.drop_last(), in_enum) {
            Err(e) => Err(e),
            Ok(ms) => match member_of(cs.last(), ident_of(cs.last(), in_enum), in_enum) {
                Err(e) => Err(e),
                Ok(m) => Ok(ms.push(m)),
            },
        }
    }
}

/// The token tag of `t` (see [`tag_text`]).
pub fn token_tag(t: &ParamType) -> (r: &'static str)
    ensures
        r@ == tag_text(t@),
{
    match t {
        ParamType::Unit => "Unit",
        ParamType::Bool => "Bool",
        ParamType::Byte => "Byte",
        ParamType::U8 => "U8",
        ParamType::U16 => "U16",
        ParamType::U32 => "U32",
        ParamType::U64 => "U64",
        ParamType::B256 => "B256",
        ParamType::String(_) => "String",
        ParamType::Array(_, _) => "Array",
        ParamType::Struct(_) => "Struct",
        ParamType::Enum(_) => "Enum",
    }
}

/// The native type of `t` (see [`type_text`]).
pub fn native_type(t: &ParamType, leaf: &str) -> (r: String)
    ensures
        r@ == type_text(t@, leaf@),
    decreases t,
{
    match t {
        ParamType::Unit => String::from_str("()"),
        ParamType::Bool => String::from_str("bool"),
        ParamType::Byte => String::from_str("u8"),
        ParamType::U8 => String::from_str("u8"),
        ParamType::U16 => String::from_str("u16"),
        ParamType::U32 => String::from_str("u32"),
        ParamType::U64 => String::from_str("u64"),
        ParamType::B256 => String::from_str("[u8 ; 32]"),
        ParamType::String(_) => String::from_str("String"),
        ParamType::Array(e, _) => {
            let inner = native_type(e, leaf);
            let mut r = String::from_str(":: std :: vec :: Vec < ");
            r.append(inner.as_str());
            r.append(" >");
            r
        },
        ParamType::Struct(_) => String::from_str(leaf),
        ParamType::Enum(_) => String::from_str(leaf),
    }
}

/// The expression that rebuilds `t` in generated code (see [`param_text`]).
pub fn param_expr(t: &ParamType, leaf: &str) -> (r: String)
    ensures
        r@ == param_text(t@, leaf@),
    decreases t,
{
    match t {
        ParamType::String(n) => {
            let mut r = String::from_str("ParamType :: String (");
            r.append(decimal_text(*n).as_str());
            r.append(")");
            r
        },
        ParamType::Array(e, n) => {
            let inner = param_expr(e, leaf);
            let mut r = String::from_str("ParamType :: Array (Box :: new (");
            r.append(inner.as_str());
            r.append(") , ");
            r.append(decimal_text(*n).as_str());
            r.append(")");
            r
        },
        ParamType::Struct(_) | ParamType::Enum(_) => {
            let mut r = String::from_str(leaf);
            r.append(" :: param_type ()");
            r
        },
        _ => {
            let mut r = String::from_str("ParamType :: ");
            r.append(token_tag(t));
            r
        },
    }
}

fn custom_leaf(t: &ParamType) -> (r: bool)
    ensures
        r == has_custom_leaf(t@),
    decreases t,
{
    match t {
        ParamType::Array(e, _) => custom_leaf(e),
        ParamType::Struct(_) | ParamType::Enum(_) => true,
        _ => false,
    }
}

/// The member that component `c` becomes (see [`member_of`]).
pub fn member(c: &Property, ident: String, in_enum: bool) -> (r: Result<Member, Error>)
    ensures
        r is Ok <==> member_of(*c, ident@, in_enum) is Ok,
        r is Ok ==> r->Ok_0@ == member_of(*c, ident@, in_enum)->Ok_0,
        r is Err ==> r->Err_0@ == member_of(*c, ident@, in_enum)->Err_0,
{
    let t = match parse_param(c) {
        Ok(t) => t,
        Err(e) => return Err(e),
    };
    let expected = match &t {
        ParamType::Struct(_) => Some(CustomType::Struct),
        ParamType::Enum(_) => Some(CustomType::Enum),
        _ => None,
    };
    let leaf = if expected.is_some() || custom_leaf(&t) {
        match extract_custom_type_name_from_abi_property(c, expected) {
            Ok(n) => n,
            Err(e) => return Err(e),
        }
    } else {
        String::new()
    };
    let kind = match &t {
        ParamType::Struct(_) => MemberKind::NestedStruct,
        ParamType::Enum(_) => MemberKind::NestedEnum,
        ParamType::Array(_, _) => MemberKind::Array,
        ParamType::Unit => if in_enum {
            MemberKind::Unit
        } else {
            MemberKind::Plain
        },
        _ => MemberKind::Plain,
    };
    let ty = native_type(&t, leaf.as_str());
    let param = param_expr(&t, leaf.as_str());
    let tag = String::from_str(token_tag(&t));
    Ok(Member { ident, kind, ty, param, tag })
}

/// The members of `cs`, in order, stopping at the first component that
/// fails (see [`members_of`]).
pub fn members(cs: &Vec<Property>, in_enum: bool) -> (r: Result<Vec<Member>, Error>)
    ensures
        r is Ok <==> members_of(cs@, in_enum) is Ok,
        r is Ok ==> members_view(r->Ok_0@) == members_of(cs@, in_enum)->Ok_0,
        r is Ok ==> r->Ok_0@.len() == cs@.len(),
        r is Err ==> r->Err_0@ == members_of(cs@, in_enum)->Err_0,
{
    let mut out: Vec<Member> = Vec::new();
    let mut i: usize = 0;
    assert(cs@.subrange(0, 0) =~= Seq::<Property>::empty());
    assert(members_view(out@) =~= Seq::<MemberM>::empty());
    while i < cs.len()
        invariant
            i <= cs@.len(),
            out@.len() == i,
            members_of(cs@.subrange(0, i as int), in_enum) == Ok::<Seq<MemberM>, (ErrorKind, Seq<char>)>(
                members_view(out@),
            ),
        decreases cs@.len() - i,
    {
        let c = &cs[i];
        proof {
            assert(cs@.subrange(0, i + 1).drop_last() =~= cs@.subrange(0, i as int));
            assert(cs@.subrange(0, i + 1).last() == cs@[i as int]);
        }
        let ident = if in_enum {
            String::from_str(c.name.as_str())
        } else {
            to_snake_case(c.name.as_str())
        };
        match member(c, ident, in_enum) {
            Ok(m) => {
                let ghost before = out@;
                out.push(m);
                assert(members_view(out@) =~= members_view(before).push(m@));
            },
            Err(e) => {
                proof {
                    lemma_members_fail(cs@, in_enum, i + 1);
                }
                return Err(e);
            },
        }
        i = i + 1;
    }
    assert(cs@.subrange(0, i as int) =~= cs@);
    Ok(out)
}

proof fn lemma_members_fail(cs: Seq<Property>, in_enum: bool, j: int)
    requires
        0 <= j <= cs.len(),
        members_of(cs.subrange(0, j), in_enum) is Err,
    ensures
        members_of(cs, in_enum) == members_of(cs.subrange(0, j), in_enum),
    decreases cs.len() - j,
{
    if j < cs.len() {
        assert(cs.subrange(0, j + 1).drop_last() =~= cs.subrange(0, j));
        lemma_members_fail(cs, in_enum, j + 1);
    } else {
        assert(cs.subrange(0, j) =~= cs);
    }
}

} // verus!
