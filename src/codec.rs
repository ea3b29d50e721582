//! The codec between native values and tokens, driven by a resolved type.
use vstd::prelude::*;
use vstd::string::*;
use crate::abi::{Error, ErrorKind};
use crate::text::decimal_text;
use crate::types::{
    EnumVariants, ParamType, PType, Token, TokenM, Value, ValueM, ptype_of, ptypes_of, token_of,
    tokens_of, value_of, values_of,
};

verus! {

/// Whether `v` is a native value of type `t`.
pub open spec fn fits(t: PType, v: ValueM) -> bool
    decreases v,
{
    match v {
        ValueM::Unit => t is Unit,
        ValueM::Bool(_) => t is Bool,
        ValueM::Byte(_) => t is Byte,
        ValueM::U8(_) => t is U8,
        ValueM::U16(_) => t is U16,
        ValueM::U32(_) => t is U32,
        ValueM::U64(_) => t is U64,
        ValueM::B256(b) => t is B256 && b.len() == 32,
        ValueM::Str(_) => t is Str,
        ValueM::Array(xs) => match t {
            PType::Array(e, _) => forall|i: int| 0 <= i < xs.len() ==> fits(*e, #[trigger] xs[i]),
            _ => false,
        },
        ValueM::Struct(xs) => match t {
            PType::Struct(ts) => xs.len() == ts.len() && forall|i: int|
                0 <= i < xs.len() ==> fits(ts[i], #[trigger] xs[i]),
            _ => false,
        },
        ValueM::Enum(d, p) => match t {
            PType::Enum(vs) => d < vs.len() && fits(vs[d as int], *p),
            _ => false,
        },
    }
}

/// The token that the value `v` of type `t` encodes to. A record becomes the
/// tokens of its fields in declaration order; a tagged union its index, its
/// payload's token and the full variant catalog; every array and string
/// takes the generic `Array` and `String` tag.
pub open spec fn encode(t: PType, v: ValueM) -> TokenM
    decreases v,
{
    match v {
        ValueM::Unit => TokenM::Unit,
        ValueM::Bool(b) => TokenM::Bool(b),
        ValueM::Byte(b) => TokenM::Byte(b),
        ValueM::U8(x) => TokenM::U8(x),
        ValueM::U16(x) => TokenM::U16(x),
        ValueM::U32(x) => TokenM::U32(x),
        ValueM::U64(x) => TokenM::U64(x),
        ValueM::B256(b) => TokenM::B256(b),
        ValueM::Str(s) => TokenM::Str(s),
        ValueM::Array(xs) => match t {
            PType::Array(e, _) => TokenM::Array(
                Seq::new(xs.len(), |i: int| if 0 <= i < xs.len() { encode(*e, xs[i]) } else { TokenM::Unit }),
            ),
            _ => TokenM::Unit,
        },
        ValueM::Struct(xs) => match t {
            PType::Struct(ts) => TokenM::Struct(
                Seq::new(xs.len(), |i: int| if 0 <= i < xs.len() { encode(ts[i], xs[i]) } else { TokenM::Unit }),
            ),
            _ => TokenM::Unit,
        },
        ValueM::Enum(d, p) => match t {
            PType::Enum(vs) => TokenM::Enum(d, Box::new(encode(vs[d as int], *p)), vs),
            _ => TokenM::Unit,
        },
    }
}

/// The value that token `k` decodes to as type `t`, or `None`: the token's
/// kind must match the type's; a record needs at least as many tokens as it
/// has fields, in order, and ignores the rest; a tagged union needs a known
/// discriminant, and reads no payload for a unit variant.
pub open spec fn decode(t: PType, k: TokenM) -> Option<ValueM>
    decreases k, 1nat, 0nat,
{
    match t {
        PType::Unit => if k is Unit { Some(ValueM::Unit) } else { None },
        PType::Bool => match k {
            TokenM::Bool(b) => Some(ValueM::Bool(b)),
            _ => None,
        },
        PType::Byte => match k {
            TokenM::Byte(b) => Some(ValueM::Byte(b)),
            _ => None,
        },
        PType::U8 => match k {
            TokenM::U8(x) => Some(ValueM::U8(x)),
            _ => None,
        },
        PType::U16 => match k {
            TokenM::U16(x) => Some(ValueM::U16(x)),
            _ => None,
        },
        PType::U32 => match k {
            TokenM::U32(x) => Some(ValueM::U32(x)),
            _ => None,
        },
        PType::U64 => match k {
            TokenM::U64(x) => Some(ValueM::U64(x)),
            _ => None,
        },
        PType::B256 => match k {
            TokenM::B256(b) => Some(ValueM::B256(b)),
            _ => None,
        },
        PType::Str(_) => match k {
            TokenM::Str(s) => Some(ValueM::Str(s)),
            _ => None,
        },
        PType::Array(e, _) => match k {
            TokenM::Array(ks) => match decode_list(Seq::new(ks.len(), |i: int| *e), ks) {
                Some(xs) => Some(ValueM::Array(xs)),
                None => None,
            },
            _ => None,
        },
        PType::Struct(ts) => match k {
            TokenM::Struct(ks) => match decode_list(ts, ks) {
                Some(xs) => Some(ValueM::Struct(xs)),
                None => None,
            },
            _ => None,
        },
        PType::Enum(vs) => match k {
            TokenM::Enum(d, p, _) => if d < vs.len() {
                if vs[d as int] is Unit {
                    Some(ValueM::Enum(d, Box::new(ValueM::Unit)))
                } else {
                    match decode(vs[d as int], *p) {
                        Some(x) => Some(ValueM::Enum(d, Box::new(x))),
                        None => None,
                    }
                }
            } else {
                None
            },
            _ => None,
        },
    }
}

/// Decodes `ks[i]` as `ts[i]` for each index of `ts`, in order; `None` when
/// `ks` is shorter than `ts` or one of them fails.
pub open spec fn decode_list(ts: Seq<PType>, ks: Seq<TokenM>) -> Option<Seq<ValueM>>
    decreases ks, 0nat, ts.len(),
{
    if ts.len() > ks.len() {
        None
    } else if ts.len() == 0 {
        Some(seq![])
    } else {
        match (decode_list(ts.drop_last(), ks), decode(ts.last(), ks[ts.len() - 1])) {
            (Some(xs), Some(x)) => Some(xs.push(x)),
            _ => None,
        }
    }
}

proof fn lemma_decode_list_of(ts: Seq<PType>, ks: Seq<TokenM>, xs: Seq<ValueM>)
    requires
        ts.len() == xs.len() <= ks.len(),
        forall|i: int| 0 <= i < ts.len() ==> decode(ts[i], ks[i]) == Some(#[trigger] xs[i]),
    ensures
        decode_list(ts, ks) == Some(xs),
    decreases ts.len(),
{
    if ts.len() > 0 {
        let ts0 = ts.drop_last();
        let xs0 = xs.drop_last();
        assert forall|i: int| 0 <= i < ts0.len() implies decode(ts0[i], ks[i]) == Some(
            #[trigger] xs0[i],
        ) by {
            assert(xs0[i] == xs[i]);
        }
        lemma_decode_list_of(ts0, ks, xs0);
        assert(xs0.push(xs.last()) =~= xs);
    } else {
        assert(xs =~= seq![]);
    }
}

proof fn lemma_decode_list_fails(ts: Seq<PType>, ks: Seq<TokenM>, j: int)
    requires
        0 <= j <= ts.len() <= ks.len(),
        decode_list(ts.subrange(0, j), ks) is None,
    ensures
        decode_list(ts, ks) is None,
    decreases ts.len() - j,
{
    if j < ts.len() {
        assert(ts.subrange(0, j + 1).drop_last() =~= ts.subrange(0, j));
        lemma_decode_list_fails(ts, ks, j + 1);
    } else {
        assert(ts.subrange(0, j) =~= ts);
    }
}

/// Round trip: decoding the token of a native value gives that value back.
pub proof fn lemma_round_trip(t: PType, v: ValueM)
    requires
        fits(t, v),
    ensures
        decode(t, encode(t, v)) == Some(v),
    decreases v,
{
    match v {
        ValueM::Array(xs) => {
            let e = t->Array_0;
            let ks = encode(t, v)->Array_0;
            let ts = Seq::new(ks.len(), |i: int| *e);
            assert forall|i: int| 0 <= i < ts.len() implies decode(ts[i], ks[i]) == Some(
                #[trigger] xs[i],
            ) by {
                lemma_round_trip(*e, xs[i]);
            }
            lemma_decode_list_of(ts, ks, xs);
        },
        ValueM::Struct(xs) => {
            let ts = t->Struct_0;
            let ks = encode(t, v)->Struct_0;
            assert forall|i: int| 0 <= i < ts.len() implies decode(ts[i], ks[i]) == Some(
                #[trigger] xs[i],
            ) by {
                lemma_round_trip(ts[i], xs[i]);
            }
            lemma_decode_list_of(ts, ks, xs);
        },
        ValueM::Enum(d, p) => {
            let vs = t->Enum_0;
            lemma_round_trip(vs[d as int], *p);
        },
        _ => {},
    }
}

/// Discriminant stability: the `i`-th variant encodes with discriminant `i`
/// and the enum's catalog, and a token with discriminant `i` whose payload
/// decodes as the `i`-th variant's type decodes to that variant.
pub proof fn lemma_discriminant_stable(vs: Seq<PType>, i: u8, p: ValueM, payload: TokenM, catalog: Seq<PType>)
    requires
        i < vs.len(),
        fits(vs[i as int], p),
    ensures
        encode(PType::Enum(vs), ValueM::Enum(i, Box::new(p))) == TokenM::Enum(
            i,
            Box::new(encode(vs[i as int], p)),
            vs,
        ),
        decode(vs[i as int], payload) == Some(p) ==> decode(
            PType::Enum(vs),
            TokenM::Enum(i, Box::new(payload), catalog),
        ) == Some(ValueM::Enum(i, Box::new(p))),
{
}

/// Nested delegation: in a record's token, the slot of each field is exactly
/// that field's own token, whatever its type, a nested record or tagged union
/// included.
pub proof fn lemma_fields_delegate(ts: Seq<PType>, xs: Seq<ValueM>, i: int)
    requires
        fits(PType::Struct(ts), ValueM::Struct(xs)),
        0 <= i < ts.len(),
    ensures
        encode(PType::Struct(ts), ValueM::Struct(xs)) is Struct,
        encode(PType::Struct(ts), ValueM::Struct(xs))->Struct_0.len() == ts.len(),
        encode(PType::Struct(ts), ValueM::Struct(xs))->Struct_0[i] == encode(ts[i], xs[i]),
{
}

/// Tag collapsing: every array value encodes with the `Array` tag and every
/// string with the `String` tag, whatever the element type or length; only
/// those tags decode as an array or a string.
pub proof fn lemma_tags_collapse(t: PType, v: ValueM, k: TokenM)
    requires
        t is Array || t is Str,
        fits(t, v),
    ensures
        t is Array ==> encode(t, v) is Array,
        t is Str ==> encode(t, v) is Str,
        t is Array && decode(t, k) is Some ==> k is Array,
        t is Str && decode(t, k) is Some ==> k is Str,
{
}

/// A copy of `t`.
pub fn copy_type(t: &ParamType) -> (r: ParamType)
    ensures
        r@ == t@,
    decreases t,
{
    match t {
        ParamType::Unit => ParamType::Unit,
        ParamType::Bool => ParamType::Bool,
        ParamType::Byte => ParamType::Byte,
        ParamType::U8 => ParamType::U8,
        ParamType::U16 => ParamType::U16,
        ParamType::U32 => ParamType::U32,
        ParamType::U64 => ParamType::U64,
        ParamType::B256 => ParamType::B256,
        ParamType::String(n) => ParamType::String(*n),
        ParamType::Array(e, n) => ParamType::Array(Box::new(copy_type(e)), *n),
        ParamType::Struct(ts) => ParamType::Struct(copy_types(ts)),
        ParamType::Enum(ev) => ParamType::Enum(EnumVariants { variants: copy_types(&ev.variants) }),
    }
}

fn copy_types(ts: &Vec<ParamType>) -> (r: Vec<ParamType>)
    ensures
        ptypes_of(r@) == ptypes_of(ts@),
        r@.len() == ts@.len(),
    decreases ts, 0nat,
{
    let mut out: Vec<ParamType> = Vec::new();
    let mut i: usize = 0;
    while i < ts.len()
        invariant
            i <= ts@.len(),
            out@.len() == i,
            forall|j: int| 0 <= j < i ==> (#[trigger] out@[j])@ == ts@[j]@,
        decreases ts@.len() - i,
    {
        proof {
            assert(decreases_to!(*ts => ts[i as int]));
        }
        out.push(copy_type(&ts[i]));
        i = i + 1;
    }
    assert(ptypes_of(out@) =~= ptypes_of(ts@));
    out
}

/// The token of the native value `v` of type `t` (see [`encode`]).
pub fn into_token(t: &ParamType, v: &Value) -> (r: Token)
    requires
        fits(t@, v@),
    ensures
        r@ == encode(t@, v@),
    decreases v,
{
    match v {
        Value::Unit => Token::Unit,
        Value::Bool(b) => Token::Bool(*b),
        Value::Byte(b) => Token::Byte(*b),
        Value::U8(x) => Token::U8(*x),
        Value::U16(x) => Token::U16(*x),
        Value::U32(x) => Token::U32(*x),
        Value::U64(x) => Token::U64(*x),
        Value::B256(b) => Token::B256(*b),
        Value::String(s) => Token::String(s.clone()),
        Value::Array(xs) => {
            let e: &ParamType = match t {
                ParamType::Array(e, _) => e,
                _ => {
                    assert(false);
                    return Token::Unit;
                },
            };
            let ghost em = (*e)@;
            assert forall|j: int| 0 <= j < xs@.len() implies fits(em, #[trigger] xs@[j]@) by {
                assert(values_of(xs@)[j] == xs@[j]@);
            }
            let mut out: Vec<Token> = Vec::new();
            let mut i: usize = 0;
            while i < xs.len()
                invariant
                    i <= xs@.len(),
                    out@.len() == i,
                    t@ is Array,
                    em == *t@->Array_0,
                    fits(t@, v@),
                    v@ == ValueM::Array(values_of(xs@)),
                    *v == Value::Array(*xs),
                    forall|j: int| 0 <= j < xs@.len() ==> fits(em, #[trigger] xs@[j]@),
                    t->Array_0 == *e,
                    forall|j: int| 0 <= j < i ==> (#[trigger] out@[j])@ == encode(em, xs@[j]@),
                decreases xs@.len() - i,
            {
                proof {
                    assert(decreases_to!(*xs => xs[i as int]));
                }
                out.push(into_token(e, &xs[i]));
                i = i + 1;
            }
            assert(tokens_of(out@) =~= encode(t@, v@)->Array_0);
            Token::Array(out)
        },
        Value::Struct(xs) => {
            let ts: &Vec<ParamType> = match t {
                ParamType::Struct(ts) => ts,
                _ => {
                    assert(false);
                    return Token::Unit;
                },
            };
            let mut out: Vec<Token> = Vec::new();
            let mut i: usize = 0;
            while i < xs.len()
                invariant
                    i <= xs@.len(),
                    out@.len() == i,
                    t@ == PType::Struct(ptypes_of(ts@)),
                    fits(t@, v@),
                    v@ == ValueM::Struct(values_of(xs@)),
                    *v == Value::Struct(*xs),
                    *t == ParamType::Struct(*ts),
                    forall|j: int| 0 <= j < i ==> (#[trigger] out@[j])@ == encode(ts@[j]@, xs@[j]@),
                decreases xs@.len() - i,
            {
                proof {
                    assert(decreases_to!(*xs => xs[i as int]));
                    assert(values_of(xs@)[i as int] == xs@[i as int]@);
                    assert(ptypes_of(ts@)[i as int] == ts@[i as int]@);
                }
                out.push(into_token(&ts[i], &xs[i]));
                i = i + 1;
            }
            assert(tokens_of(out@) =~= encode(t@, v@)->Struct_0);
            Token::Struct(out)
        },
        Value::Enum(d, p) => {
            let ev: &EnumVariants = match t {
                ParamType::Enum(ev) => ev,
                _ => {
                    assert(false);
                    return Token::Unit;
                },
            };
            let d: u8 = *d;
            assert(ptypes_of(ev.variants@)[d as int] == ev.variants@[d as int]@);
            let payload = into_token(&ev.variants[d as usize], p);
            let catalog = EnumVariants { variants: copy_types(&ev.variants) };
            Token::Enum(Box::new((d, payload, catalog)))
        },
    }
}

/// The tag of a token, as its variant's name.
fn token_kind(k: &Token) -> &'static str {
    match k {
        Token::Unit => "Unit",
        Token::Bool(_) => "Bool",
        Token::Byte(_) => "Byte",
        Token::U8(_) => "U8",
        Token::U16(_) => "U16",
        Token::U32(_) => "U32",
        Token::U64(_) => "U64",
        Token::B256(_) => "B256",
        Token::String(_) => "String",
        Token::Array(_) => "Array",
        Token::Struct(_) => "Struct",
        Token::Enum(_) => "Enum",
    }
}

fn mismatch(expected: &str, got: &Token) -> (r: Error)
    ensures
        r.kind() == ErrorKind::InstantiationError,
{
    let mut msg = String::from_str("Expected a token of type Token::");
    msg.append(expected);
    msg.append(", got Token::");
    msg.append(token_kind(got));
    Error::InstantiationError(msg)
}

/// The native value that token `k` decodes to as type `t` (see [`decode`]);
/// every failure is an `InstantiationError`.
pub fn from_token(t: &ParamType, k: &Token) -> (r: Result<Value, Error>)
    ensures
        r is Ok <==> decode(t@, k@) is Some,
        r is Ok ==> r->Ok_0@ == decode(t@, k@)->Some_0,
        r is Err ==> r->Err_0.kind() == ErrorKind::InstantiationError,
    decreases k,
{
    match t {
        ParamType::Unit => match k {
            Token::Unit => Ok(Value::Unit),
            _ => Err(mismatch("Unit", k)),
        },
        ParamType::Bool => match k {
            Token::Bool(b) => Ok(Value::Bool(*b)),
            _ => Err(mismatch("Bool", k)),
        },
        ParamType::Byte => match k {
            Token::Byte(b) => Ok(Value::Byte(*b)),
            _ => Err(mismatch("Byte", k)),
        },
        ParamType::U8 => match k {
            Token::U8(x) => Ok(Value::U8(*x)),
            _ => Err(mismatch("U8", k)),
        },
        ParamType::U16 => match k {
            Token::U16(x) => Ok(Value::U16(*x)),
            _ => Err(mismatch("U16", k)),
        },
        ParamType::U32 => match k {
            Token::U32(x) => Ok(Value::U32(*x)),
            _ => Err(mismatch("U32", k)),
        },
        ParamType::U64 => match k {
            Token::U64(x) => Ok(Value::U64(*x)),
            _ => Err(mismatch("U64", k)),
        },
        ParamType::B256 => match k {
            Token::B256(b) => Ok(Value::B256(*b)),
            _ => Err(mismatch("B256", k)),
        },
        ParamType::String(_) => match k {
            Token::String(s) => Ok(Value::String(s.clone())),
            _ => Err(mismatch("String", k)),
        },
        ParamType::Array(e, _) => match k {
            Token::Array(ks) => {
                let ghost em = (*e)@;
                let ghost tsm = Seq::new(ks@.len(), |i: int| em);
                assert(t@ == PType::Array(Box::new(em), t@->Array_1));
                assert(k@ == TokenM::Array(tokens_of(ks@)));
                assert(tokens_of(ks@).len() == ks@.len());
                let ghost whole = decode(t@, k@);
                assert(whole == match decode_list(tsm, tokens_of(ks@)) {
                    Some(xs) => Some(ValueM::Array(xs)),
                    None => None,
                });
                let mut out: Vec<Value> = Vec::new();
                let mut i: usize = 0;
                assert(tsm.subrange(0, 0) =~= Seq::<PType>::empty());
                assert(values_of(out@) =~= Seq::<ValueM>::empty());
                while i < ks.len()
                    invariant
                        i <= ks@.len(),
                        out@.len() == i,
                        tsm == Seq::new(ks@.len(), |i: int| em),
                        em == (*e)@,
                        k@ == TokenM::Array(tokens_of(ks@)),
                        whole == decode(t@, k@),
                        whole == match decode_list(tsm, tokens_of(ks@)) {
                            Some(xs) => Some(ValueM::Array(xs)),
                            None => None,
                        },
                        *k == Token::Array(*ks),
                        decode_list(tsm.subrange(0, i as int), tokens_of(ks@)) == Some(values_of(out@)),
                    decreases ks@.len() - i,
                {
                    proof {
                        assert(decreases_to!(*ks => ks[i as int]));
                        assert(tokens_of(ks@)[i as int] == ks@[i as int]@);
                        assert(tsm.subrange(0, i + 1).drop_last() =~= tsm.subrange(0, i as int));
                        assert(tsm.subrange(0, i + 1).last() == em);
                    }
                    match from_token(e, &ks[i]) {
                        Ok(x) => {
                            let ghost before = out@;
                            out.push(x);
                            assert(values_of(out@) =~= values_of(before).push(x@));
                        },
                        Err(err) => {
                            proof {
                                lemma_decode_list_fails(tsm, tokens_of(ks@), i + 1);
                            }
                            return Err(err);
                        },
                    }
                    i = i + 1;
                }
                assert(tsm.subrange(0, i as int) =~= tsm);
                Ok(Value::Array(out))
            },
            _ => Err(mismatch("Array", k)),
        },
        ParamType::Struct(ts) => match k {
            Token::Struct(ks) => {
                assert(t@ == PType::Struct(ptypes_of(ts@)));
                assert(k@ == TokenM::Struct(tokens_of(ks@)));
                let ghost whole = decode(t@, k@);
                assert(whole == match decode_list(ptypes_of(ts@), tokens_of(ks@)) {
                    Some(xs) => Some(ValueM::Struct(xs)),
                    None => None,
                });
                if ks.len() < ts.len() {
                    assert(ptypes_of(ts@).len() > tokens_of(ks@).len());
                    let mut msg = String::from_str("Ran out of tokens before the struct has finished construction: ");
                    msg.append(decimal_text(ts.len()).as_str());
                    msg.append(" fields, ");
                    msg.append(decimal_text(ks.len()).as_str());
                    msg.append(" tokens");
                    return Err(Error::InstantiationError(msg));
                }
                let ghost tsm = ptypes_of(ts@);
                let mut out: Vec<Value> = Vec::new();
                let mut i: usize = 0;
                assert(tsm.subrange(0, 0) =~= Seq::<PType>::empty());
                assert(values_of(out@) =~= Seq::<ValueM>::empty());
                while i < ts.len()
                    invariant
                        i <= ts@.len() <= ks@.len(),
                        out@.len() == i,
                        tsm == ptypes_of(ts@),
                        k@ == TokenM::Struct(tokens_of(ks@)),
                        whole == decode(t@, k@),
                        whole == match decode_list(tsm, tokens_of(ks@)) {
                            Some(xs) => Some(ValueM::Struct(xs)),
                            None => None,
                        },
                        *k == Token::Struct(*ks),
                        decode_list(tsm.subrange(0, i as int), tokens_of(ks@)) == Some(values_of(out@)),
                    decreases ts@.len() - i,
                {
                    proof {
                        assert(decreases_to!(*ks => ks[i as int]));
                        assert(tokens_of(ks@)[i as int] == ks@[i as int]@);
                        assert(tsm[i as int] == ts@[i as int]@);
                        assert(tsm.subrange(0, i + 1).drop_last() =~= tsm.subrange(0, i as int));
                    }
                    match from_token(&ts[i], &ks[i]) {
                        Ok(x) => {
                            let ghost before = out@;
                            out.push(x);
                            assert(values_of(out@) =~= values_of(before).push(x@));
                        },
                        Err(err) => {
                            proof {
                                lemma_decode_list_fails(tsm, tokens_of(ks@), i + 1);
                            }
                            return Err(err);
                        },
                    }
                    i = i + 1;
                }
                assert(tsm.subrange(0, i as int) =~= tsm);
                Ok(Value::Struct(out))
            },
            _ => Err(mismatch("Struct", k)),
        },
        ParamType::Enum(ev) => match k {
            Token::Enum(sel) => {
                let d: u8 = sel.0;
                assert(t@ == PType::Enum(ptypes_of(ev.variants@)));
                assert(k@ == TokenM::Enum(d, Box::new(sel.1@), ptypes_of(sel.2.variants@)));
                if (d as usize) >= ev.variants.len() {
                    let mut msg = String::from_str("Failed to match with discriminant selector ");
                    msg.append(decimal_text(d as usize).as_str());
                    return Err(Error::InstantiationError(msg));
                }
                assert(ptypes_of(ev.variants@)[d as int] == ev.variants@[d as int]@);
                let vt: &ParamType = &ev.variants[d as usize];
                match vt {
                    ParamType::Unit => {
                        assert(ptypes_of(ev.variants@)[d as int] == PType::Unit);
                        let r = Value::Enum(d, Box::new(Value::Unit));
                        assert(value_of(Value::Unit) == ValueM::Unit);
                        assert(r@ == ValueM::Enum(d, Box::new(ValueM::Unit)));
                        assert(decode(t@, k@) == Some(ValueM::Enum(d, Box::new(ValueM::Unit))));
                        return Ok(r);
                    },
                    _ => {},
                }
                proof {
                    assert(decreases_to!(*k => sel.1));
                }
                match from_token(vt, &sel.1) {
                    Ok(x) => Ok(Value::Enum(d, Box::new(x))),
                    Err(err) => Err(err),
                }
            },
            _ => Err(mismatch("Enum", k)),
        },
    }
}

} // verus!
