//! Resolution of a type descriptor into its [`ParamType`].
use vstd::prelude::*;
use vstd::string::*;
use crate::abi::{Error, ErrorKind, Property};
use crate::text::{words, parse_usize, chars_of, split_words, range_is, parse_decimal};
use crate::types::{EnumVariants, ParamType, PType, ptypes_of, ptype_of};

verus! {

/// The type that a primitive keyword (or `()`) names.
pub open spec fn primitive_type(tf: Seq<char>) -> Option<PType> {
    if tf == "()"@ {
        Some(PType::Unit)
    } else if tf == "bool"@ {
        Some(PType::Bool)
    } else if tf == "byte"@ {
        Some(PType::Byte)
    } else if tf == "u8"@ {
        Some(PType::U8)
    } else if tf == "u16"@ {
        Some(PType::U16)
    } else if tf == "u32"@ {
        Some(PType::U32)
    } else if tf == "u64"@ {
        Some(PType::U64)
    } else if tf == "b256"@ {
        Some(PType::B256)
    } else {
        None
    }
}

/// A string tag: `str[N]`.
pub open spec fn is_str_tag(tf: Seq<char>) -> bool {
    tf.len() >= 5 && tf.subrange(0, 4) == "str["@ && tf.last() == ']'
}

/// The index of the last `c` in `s[..i]`, or -1.
pub open spec fn last_index_of(s: Seq<char>, c: char, i: int) -> int
    decreases i,
{
    if i <= 0 {
        -1
    } else if s[i - 1] == c {
        i - 1
    } else {
        last_index_of(s, c, i - 1)
    }
}

/// The position of the `;` in an array tag `[E; N]`.
pub open spec fn array_sep(tf: Seq<char>) -> int {
    last_index_of(tf, ';', tf.len() as int)
}

/// An array tag: `[`, the element tag, `; `, the length, `]`.
pub open spec fn is_array_tag(tf: Seq<char>) -> bool {
    &&& tf.len() > 0
    &&& tf[0] == '['
    &&& tf.last() == ']'
    &&& 1 <= array_sep(tf)
    &&& array_sep(tf) + 2 < tf.len()
    &&& tf[array_sep(tf) + 1] == ' '
}

/// The message of a type tag that names no type.
pub open spec fn unresolved_message(tf: Seq<char>) -> Seq<char> {
    "Could not resolve type '"@ + tf + "'"@
}

/// The message of a struct or enum tag without components.
pub open spec fn no_components_message(tf: Seq<char>) -> Seq<char> {
    "Custom type '"@ + tf + "' must have at least one component!"@
}

/// The message of an enum tag with more than 256 variants.
pub open spec fn too_many_variants_message(tf: Seq<char>) -> Seq<char> {
    "Enum '"@ + tf + "' has more variants than a discriminant can tell apart!"@
}

/// The resolved type of a descriptor with type tag `tf` and nested
/// descriptors `comps`, or the message of the first failure (whose kind is
/// always `InvalidType`).
pub open spec fn resolve_tag(tf: Seq<char>, comps: Option<Vec<Property>>) -> Result<PType, Seq<char>>
    decreases comps, tf.len(),
{
    if primitive_type(tf) is Some {
        Ok(primitive_type(tf)->Some_0)
    } else if is_str_tag(tf) {
        match parse_usize(tf.subrange(4, tf.len() - 1)) {
            Some(n) => Ok(PType::Str(n as nat)),
            None => Err(unresolved_message(tf)),
        }
    } else if is_array_tag(tf) {
        let k = array_sep(tf);
        match resolve_tag(tf.subrange(1, k), comps) {
            Err(m) => Err(m),
            Ok(e) => match parse_usize(tf.subrange(k + 2, tf.len() - 1)) {
                Some(n) => Ok(PType::Array(Box::new(e), n as nat)),
                None => Err(unresolved_message(tf)),
            },
        }
    } else if words(tf).len() > 0 && (words(tf)[0] == "struct"@ || words(tf)[0] == "enum"@) {
        match comps {
            Some(v) => if v@.len() == 0 {
                Err(no_components_message(tf))
            } else if words(tf)[0] == "enum"@ && v@.len() > 256 {
                Err(too_many_variants_message(tf))
            } else {
                match resolve_all(v@) {
                    Ok(ts) => if words(tf)[0] == "struct"@ {
                        Ok(PType::Struct(ts))
                    } else {
                        Ok(PType::Enum(ts))
                    },
                    Err(m) => Err(m),
                }
            },
            None => Err(no_components_message(tf)),
        }
    } else {
        Err(unresolved_message(tf))
    }
}

/// The resolved types of `cs`, in order, or the first failure's message.
pub open spec fn resolve_all(cs: Seq<Property>) -> Result<Seq<PType>, Seq<char>>
    decreases cs, 0nat,
{
    if cs.len() == 0 {
        Ok(seq![])
    } else {
        match resolve_all(cs.drop_last()) {
            Err(m) => Err(m),
            Ok(a) => match resolve_tag(cs.last().type_field@, cs.last().components) {
                Ok(t) => Ok(a.push(t)),
                Err(m) => Err(m),
            },
        }
    }
}

/// The resolved type of a descriptor, or the first failure's message.
pub open spec fn resolve(p: Property) -> Result<PType, Seq<char>> {
    resolve_tag(p.type_field@, p.components)
}

/// A resolved type is well formed: every struct has a field, every enum has
/// between one and 256 variants, all the way down.
pub open spec fn well_formed(t: PType) -> bool
    decreases t,
{
    match t {
        PType::Array(e, _) => well_formed(*e),
        PType::Struct(ts) => ts.len() > 0 && forall|i: int| 0 <= i < ts.len() ==> well_formed(#[trigger] ts[i]),
        PType::Enum(vs) => 0 < vs.len() <= 256 && forall|i: int| 0 <= i < vs.len() ==> well_formed(#[trigger] vs[i]),
        _ => true,
    }
}

/// Every type that resolution produces is well formed: in particular no
/// enum without variants is ever built.
pub proof fn lemma_resolved_well_formed(tf: Seq<char>, comps: Option<Vec<Property>>)
    requires
        resolve_tag(tf, comps) is Ok,
    ensures
        well_formed(resolve_tag(tf, comps)->Ok_0),
    decreases comps, tf.len(),
{
    if primitive_type(tf) is Some {
    } else if is_str_tag(tf) {
    } else if is_array_tag(tf) {
        lemma_resolved_well_formed(tf.subrange(1, array_sep(tf)), comps);
    } else {
        let v = comps->Some_0;
        lemma_resolve_all_well_formed(v@);
        lemma_resolve_all_len(v@);
    }
}

proof fn lemma_resolve_all_well_formed(cs: Seq<Property>)
    requires
        resolve_all(cs) is Ok,
    ensures
        forall|i: int|
            0 <= i < resolve_all(cs)->Ok_0.len() ==> well_formed(#[trigger] resolve_all(cs)->Ok_0[i]),
    decreases cs, 0nat,
{
    if cs.len() > 0 {
        lemma_resolve_all_well_formed(cs.drop_last());
        lemma_resolved_well_formed(cs.last().type_field@, cs.last().components);
        let a = resolve_all(cs.drop_last())->Ok_0;
        let t = resolve_tag(cs.last().type_field@, cs.last().components)->Ok_0;
        assert forall|i: int| 0 <= i < a.push(t).len() implies well_formed(#[trigger] a.push(t)[i]) by {
            if i < a.len() {
                assert(a.push(t)[i] == a[i]);
            }
        }
    }
}

proof fn lemma_resolve_all_len(cs: Seq<Property>)
    requires
        resolve_all(cs) is Ok,
    ensures
        resolve_all(cs)->Ok_0.len() == cs.len(),
    decreases cs.len(),
{
    if cs.len() > 0 {
        lemma_resolve_all_len(cs.drop_last());
    }
}

proof fn lemma_resolve_all_fails(cs: Seq<Property>, j: int)
    requires
        0 <= j <= cs.len(),
        resolve_all(cs.subrange(0, j)) is Err,
    ensures
        resolve_all(cs) == resolve_all(cs.subrange(0, j)),
    decreases cs.len() - j,
{
    if j < cs.len() {
        assert(cs.subrange(0, j + 1).drop_last() =~= cs.subrange(0, j));
        lemma_resolve_all_fails(cs, j + 1);
    } else {
        assert(cs.subrange(0, j) =~= cs);
    }
}

fn unresolved(tf: &str) -> (r: Error)
    ensures
        r@ == (ErrorKind::InvalidType, unresolved_message(tf@)),
{
    let mut msg = String::from_str("Could not resolve type '");
    msg.append(tf);
    msg.append("'");
    Error::InvalidType(msg)
}

fn primitive(chars: &Vec<char>) -> (r: Option<ParamType>)
    ensures
        r is Some <==> primitive_type(chars@) is Some,
        r is Some ==> r->Some_0@ == primitive_type(chars@)->Some_0,
{
    let n = chars.len();
    assert(chars@.subrange(0, n as int) =~= chars@);
    if range_is(chars, 0, n, "()") {
        Some(ParamType::Unit)
    } else if range_is(chars, 0, n, "bool") {
        Some(ParamType::Bool)
    } else if range_is(chars, 0, n, "byte") {
        Some(ParamType::Byte)
    } else if range_is(chars, 0, n, "u8") {
        Some(ParamType::U8)
    } else if range_is(chars, 0, n, "u16") {
        Some(ParamType::U16)
    } else if range_is(chars, 0, n, "u32") {
        Some(ParamType::U32)
    } else if range_is(chars, 0, n, "u64") {
        Some(ParamType::U64)
    } else if range_is(chars, 0, n, "b256") {
        Some(ParamType::B256)
    } else {
        None
    }
}

/// The index of the last `;` in `chars`.
fn last_semicolon(chars: &Vec<char>) -> (r: Option<usize>)
    ensures
        r is Some ==> r->Some_0 == array_sep(chars@) && r->Some_0 < chars@.len(),
        r is None ==> array_sep(chars@) == -1,
{
    let mut i: usize = chars.len();
    while i > 0
        invariant
            i <= chars@.len(),
            array_sep(chars@) == last_index_of(chars@, ';', i as int),
        decreases i,
    {
        if chars[i - 1] == ';' {
            return Some(i - 1);
        }
        i = i - 1;
    }
    None
}

fn resolve_tag_exec(tf: &str, comps: &Option<Vec<Property>>) -> (r: Result<ParamType, Error>)
    ensures
        r is Ok <==> resolve_tag(tf@, *comps) is Ok,
        r is Ok ==> r->Ok_0@ == resolve_tag(tf@, *comps)->Ok_0,
        r is Err ==> r->Err_0@ == (ErrorKind::InvalidType, resolve_tag(tf@, *comps)->Err_0),
    decreases *comps, tf@.len(),
{
    let chars = chars_of(tf);
    let n = chars.len();
    if let Some(p) = primitive(&chars) {
        return Ok(p);
    }
    if n >= 5 && range_is(&chars, 0, 4, "str[") && chars[n - 1] == ']' {
        return match parse_decimal(&chars, 4, n - 1) {
            Some(len) => Ok(ParamType::String(len)),
            None => Err(unresolved(tf)),
        };
    }
    if n > 0 && chars[0] == '[' && chars[n - 1] == ']' {
        if let Some(k) = last_semicolon(&chars) {
            if 1 <= k && k < n - 2 && chars[k + 1] == ' ' {
                let elem = tf.substring_char(1, k);
                let e = match resolve_tag_exec(elem, comps) {
                    Ok(e) => e,
                    Err(err) => return Err(err),
                };
                return match parse_decimal(&chars, k + 2, n - 1) {
                    Some(len) => Ok(ParamType::Array(Box::new(e), len)),
                    None => Err(unresolved(tf)),
                };
            }
        }
    }
    let ws = split_words(&chars);
    if ws.len() > 0 {
        let (a, b) = ws[0];
        let is_struct = range_is(&chars, a, b, "struct");
        let is_enum = range_is(&chars, a, b, "enum");
        if is_struct || is_enum {
            return match comps {
                Some(v) => {
                    if v.len() == 0 {
                        let mut msg = String::from_str("Custom type '");
                        msg.append(tf);
                        msg.append("' must have at least one component!");
                        Err(Error::InvalidType(msg))
                    } else if is_enum && v.len() > 256 {
                        let mut msg = String::from_str("Enum '");
                        msg.append(tf);
                        msg.append("' has more variants than a discriminant can tell apart!");
                        Err(Error::InvalidType(msg))
                    } else {
                        let ts = match resolve_components(v) {
                            Ok(ts) => ts,
                            Err(err) => return Err(err),
                        };
                        if is_struct {
                            Ok(ParamType::Struct(ts))
                        } else {
                            match EnumVariants::new(ts) {
                                Some(ev) => Ok(ParamType::Enum(ev)),
                                None => Err(unresolved(tf)),
                            }
                        }
                    }
                },
                None => {
                    let mut msg = String::from_str("Custom type '");
                    msg.append(tf);
                    msg.append("' must have at least one component!");
                    Err(Error::InvalidType(msg))
                },
            };
        }
    }
    Err(unresolved(tf))
}

/// Resolves each descriptor of `cs`, in order, stopping at the first failure.
fn resolve_components(cs: &Vec<Property>) -> (r: Result<Vec<ParamType>, Error>)
    ensures
        r is Ok <==> resolve_all(cs@) is Ok,
        r is Ok ==> ptypes_of(r->Ok_0@) == resolve_all(cs@)->Ok_0 && r->Ok_0@.len() == cs@.len(),
        r is Err ==> r->Err_0@ == (ErrorKind::InvalidType, resolve_all(cs@)->Err_0),
    decreases *cs, 0nat,
{
    let mut out: Vec<ParamType> = Vec::new();
    let mut i: usize = 0;
    assert(cs@.subrange(0, 0) =~= Seq::<Property>::empty());
    assert(ptypes_of(out@) =~= Seq::<PType>::empty());
    while i < cs.len()
        invariant
            i <= cs@.len(),
            out@.len() == i,
            resolve_all(cs@.subrange(0, i as int)) == Ok::<Seq<PType>, Seq<char>>(ptypes_of(out@)),
        decreases cs@.len() - i,
    {
        let c = &cs[i];
        proof {
            assert(decreases_to!(*cs => cs[i as int]));
            assert(cs@.subrange(0, i + 1).drop_last() =~= cs@.subrange(0, i as int));
            assert(cs@.subrange(0, i + 1).last() == cs@[i as int]);
        }
        match resolve_tag_exec(c.type_field.as_str(), &c.components) {
            Ok(t) => {
                let ghost before = out@;
                out.push(t);
                assert(ptypes_of(out@) =~= ptypes_of(before).push(ptype_of(t)));
            },
            Err(err) => {
                proof {
                    lemma_resolve_all_fails(cs@, i + 1);
                }
                return Err(err);
            },
        }
        i = i + 1;
    }
    assert(cs@.subrange(0, i as int) =~= cs@);
    Ok(out)
}

/// Resolves a type descriptor: a primitive keyword, `str[N]`, an array tag
/// `[E; N]`, or `struct Name` / `enum Name` with its components, recursively.
/// Fails with `InvalidType`, on the first descriptor in the tree that does
/// not resolve; a struct or enum without components never resolves.
pub fn parse_param(prop: &Property) -> (r: Result<ParamType, Error>)
    ensures
        r is Ok <==> resolve(*prop) is Ok,
        r is Ok ==> r->Ok_0@ == resolve(*prop)->Ok_0,
        r is Err ==> r->Err_0@ == (ErrorKind::InvalidType, resolve(*prop)->Err_0),
{
    resolve_tag_exec(prop.type_field.as_str(), &prop.components)
}

} // verus!
