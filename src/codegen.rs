//! Generation of the Rust source of a binding for a custom struct or enum:
//! the native type, its `Parameterize` and `Tokenizable` impls, and its
//! conversions from bytes.
use vstd::prelude::*;
use vstd::string::*;
use crate::abi::{CustomType, Error, ErrorKind, Property};
use crate::layout::{
    Member, MemberKind, MemberM, member_of, ident_of, members, members_of, members_view, snake_case_of,
    tag_text, param_text,
};
use crate::resolve::resolve;
use crate::types::PType;
use crate::names::{custom_type_name, extract_custom_type_name_from_abi_property};
use crate::text::{decimal, decimal_text};

verus! {

/// The items joined by `sep`.
pub open spec fn joined(items: Seq<Seq<char>>, sep: Seq<char>) -> Seq<char>
    decreases items.len(),
{
    if items.len() == 0 {
        seq![]
    } else if items.len() == 1 {
        items[0]
    } else {
        joined(items.drop_last(), sep) + sep + items.last()
    }
}

/// Each item followed by `suf`.
pub open spec fn suffixed(items: Seq<Seq<char>>, suf: Seq<char>) -> Seq<char>
    decreases items.len(),
{
    if items.len() == 0 {
        seq![]
    } else {
        suffixed(items.drop_last(), suf) + items.last() + suf
    }
}

pub open spec fn is_nested(m: MemberM) -> bool {
    m.kind is NestedStruct || m.kind is NestedEnum
}

/// The statement that pushes a member's resolved type.
pub open spec fn param_push(m: MemberM) -> Seq<char> {
    "types . push ("@ + m.param + ")"@
}

pub open spec fn field_decl(m: MemberM) -> Seq<char> {
    "pub "@ + m.ident + " : "@ + m.ty
}

/// The statement that pushes a field's token: a nested type's own token, an
/// array's own token (the `Array` tag over its elements' tokens), anything
/// else under its tag.
pub open spec fn field_token(m: MemberM) -> Seq<char> {
    if is_nested(m) || m.kind is Array {
        "tokens . push (self . "@ + m.ident + " . into_token ())"@
    } else {
        "tokens . push (Token :: "@ + m.tag + " (self . "@ + m.ident + "))"@
    }
}

/// The initializer that decodes a field from the next token.
pub open spec fn field_arg(m: MemberM) -> Seq<char> {
    if is_nested(m) {
        m.ident + " : "@ + m.ty + " :: from_token (next_token () ?) ?"@
    } else {
        m.ident + " : < "@ + m.ty + " > :: from_token (next_token () ?) ?"@
    }
}

/// The literal of discriminant `i`.
pub open spec fn dis_text(i: nat) -> Seq<char> {
    decimal(i) + "u8"@
}

pub open spec fn variant_decl(m: MemberM) -> Seq<char> {
    if m.kind is Unit {
        m.ident + " ()"@
    } else {
        m.ident + " ("@ + m.ty + ")"@
    }
}

/// The match arm that turns variant `i` into its discriminant and payload token.
pub open spec fn variant_selector(n: Seq<char>, i: nat, m: MemberM) -> Seq<char> {
    let head = n + " :: "@ + m.ident;
    if m.kind is NestedStruct {
        head + " (inner_struct) => ("@ + dis_text(i) + " , inner_struct . into_token ())"@
    } else if m.kind is NestedEnum {
        head + " (inner_enum) => ("@ + dis_text(i) + " , inner_enum . into_token ())"@
    } else if m.kind is Unit {
        head + " () => ("@ + dis_text(i) + " , Token :: Unit)"@
    } else if m.kind is Array {
        head + " (value) => ("@ + dis_text(i) + " , value . into_token ())"@
    } else {
        head + " (value) => ("@ + dis_text(i) + " , Token :: "@ + m.tag + " (value))"@
    }
}

/// The match arm that rebuilds variant `i` from discriminant `i`.
pub open spec fn variant_arg(n: Seq<char>, i: nat, m: MemberM) -> Seq<char> {
    let head = "("@ + dis_text(i) + " , token , _) => "@;
    if is_nested(m) {
        head + "{ let variant_content = < "@ + m.ty + " > :: from_token (token) ? ; Ok ("@ + n
            + " :: "@ + m.ident + " (variant_content)) }"@
    } else if m.kind is Unit {
        head + "Ok ("@ + n + " :: "@ + m.ident + " ()) ,"@
    } else {
        head + "Ok ("@ + n + " :: "@ + m.ident + " (< "@ + m.ty + " > :: from_token (token) ?)) ,"@
    }
}

pub open spec fn decls_of(ms: Seq<MemberM>) -> Seq<Seq<char>> {
    Seq::new(ms.len(), |j: int| field_decl(ms[j]))
}

pub open spec fn params_of(ms: Seq<MemberM>) -> Seq<Seq<char>> {
    Seq::new(ms.len(), |j: int| param_push(ms[j]))
}

pub open spec fn field_tokens_of(ms: Seq<MemberM>) -> Seq<Seq<char>> {
    Seq::new(ms.len(), |j: int| field_token(ms[j]))
}

pub open spec fn field_args_of(ms: Seq<MemberM>) -> Seq<Seq<char>> {
    Seq::new(ms.len(), |j: int| field_arg(ms[j]))
}

pub open spec fn variant_decls_of(ms: Seq<MemberM>) -> Seq<Seq<char>> {
    Seq::new(ms.len(), |j: int| variant_decl(ms[j]))
}

pub open spec fn selectors_of(n: Seq<char>, ms: Seq<MemberM>) -> Seq<Seq<char>> {
    Seq::new(ms.len(), |j: int| variant_selector(n, j as nat, ms[j]))
}

pub open spec fn variant_args_of(n: Seq<char>, ms: Seq<MemberM>) -> Seq<Seq<char>> {
    Seq::new(ms.len(), |j: int| variant_arg(n, j as nat, ms[j]))
}

/// The conversions from raw bytes that every binding carries.
pub open spec fn try_from_text(n: Seq<char>) -> Seq<char> {
    "impl TryFrom < & [u8] > for "@ + n
        + " { type Error = SDKError ; fn try_from (bytes : & [u8]) -> Result < Self , Self :: Error > { try_from_bytes (bytes) } } impl TryFrom < & Vec < u8 >> for "@
        + n
        + " { type Error = SDKError ; fn try_from (bytes : & Vec < u8 >) -> Result < Self , Self :: Error > { try_from_bytes (bytes) } } impl TryFrom < Vec < u8 >> for "@
        + n
        + " { type Error = SDKError ; fn try_from (bytes : Vec < u8 >) -> Result < Self , Self :: Error > { try_from_bytes (& bytes) } }"@
}

/// The source of the binding of struct `n` with fields `ms`.
pub open spec fn struct_source(n: Seq<char>, ms: Seq<MemberM>) -> Seq<char> {
    "# [derive (Clone , Debug , Eq , PartialEq)] pub struct "@ + n + " { "@ + joined(decls_of(ms), " , "@)
        + " } impl Parameterize for "@ + n
        + " { fn param_type () -> ParamType { let mut types = Vec :: new () ; "@
        + suffixed(params_of(ms), " ; "@) + "ParamType :: Struct (types) } } impl Tokenizable for "@ + n
        + " { fn into_token (self) -> Token { let mut tokens = Vec :: new () ; "@
        + suffixed(field_tokens_of(ms), " ; "@)
        + "Token :: Struct (tokens) } fn from_token (token : Token) -> Result < Self , SDKError > { match token { Token :: Struct (tokens) => { let mut tokens_iter = tokens . into_iter () ; let mut next_token = move || { tokens_iter . next () . ok_or_else (|| { SDKError :: InstantiationError (format ! (\"Ran out of tokens before '{}' has finished construction!\" , \""@
        + n + "\")) }) } ; Ok (Self { "@ + joined(field_args_of(ms), " , "@)
        + " }) } , other => Err (SDKError :: InstantiationError (format ! (\"Error while constructing '{}'. Expected token of type Token::Struct, got {:?}\" , \""@
        + n + "\" , other))) , } } } "@ + try_from_text(n)
}

/// The source of the binding of enum `n` with variants `ms`.
pub open spec fn enum_source(n: Seq<char>, ms: Seq<MemberM>) -> Seq<char> {
    "# [derive (Clone , Debug , Eq , PartialEq)] pub enum "@ + n + " { "@ + joined(variant_decls_of(ms), " , "@)
        + " } impl Parameterize for "@ + n
        + " { fn param_type () -> ParamType { let mut types = Vec :: new () ; "@
        + suffixed(params_of(ms), " ; "@)
        + "let variants = EnumVariants :: new (types) . expect (concat ! (\"Enum \" , \""@ + n
        + "\" , \" has no variants! 'abigen!' should not have succeeded!\")) ; ParamType :: Enum (variants) } } impl Tokenizable for "@
        + n + " { fn into_token (self) -> Token { let (dis , tok) = match self { "@
        + suffixed(selectors_of(n, ms), " , "@)
        + "} ; let variants = match Self :: param_type () { ParamType :: Enum (variants) => variants , other => panic ! (\"Calling ::param_type() on a custom enum must return a ParamType::Enum but instead it returned: {}\" , other) } ; let selector = (dis , tok , variants) ; Token :: Enum (Box :: new (selector)) } fn from_token (token : Token) -> Result < Self , SDKError > { if let Token :: Enum (enum_selector) = token { match * enum_selector { "@
        + suffixed(variant_args_of(n, ms), " "@)
        + "(_ , _ , _) => Err (SDKError :: InstantiationError (format ! (\"Could not construct '{}'. Failed to match with discriminant selector {:?}\" , \""@
        + n
        + "\" , enum_selector))) } } else { Err (SDKError :: InstantiationError (format ! (\"Could not construct '{}'. Expected a token of type Token::Enum, got {:?}\" , \""@
        + n + "\" , token))) } } } "@ + try_from_text(n)
}

/// The message of a struct without fields.
pub open spec fn no_fields_message(n: Seq<char>) -> Seq<char> {
    "Struct '"@ + n + "' must have at least one field!"@
}

/// The message of an enum without variants, or with too many.
pub open spec fn variant_count_message(n: Seq<char>) -> Seq<char> {
    "Enum '"@ + n + "' must have at least one variant, and at most 256!"@
}

/// The binding source of the struct that descriptor `p` declares, or the
/// first error, as it came: the tag must name a struct, which must have at
/// least one field, each of which must resolve.
pub open spec fn struct_binding(p: Property) -> Result<Seq<char>, (ErrorKind, Seq<char>)> {
    match custom_type_name(p.type_field@, Some(CustomType::Struct)) {
        Err(e) => Err(e),
        Ok(n) => match p.components {
            None => Err((ErrorKind::InvalidType, no_fields_message(n))),
            Some(cs) => if cs@.len() == 0 {
                Err((ErrorKind::InvalidType, no_fields_message(n)))
            } else {
                match members_of(cs@, false) {
                    Err(e) => Err(e),
                    Ok(ms) => Ok(struct_source(n, ms)),
                }
            },
        },
    }
}

/// The binding source of enum `n` whose variants are the components of `p`,
/// or the first error, as it came: without variants (absent or empty) it is
/// `InvalidType` naming the enum, as it is with more variants than a `u8`
/// discriminant tells apart.
pub open spec fn enum_binding(n: Seq<char>, p: Property) -> Result<Seq<char>, (ErrorKind, Seq<char>)> {
    match p.components {
        None => Err((ErrorKind::InvalidType, variant_count_message(n))),
        Some(cs) => if cs@.len() == 0 || cs@.len() > 256 {
            Err((ErrorKind::InvalidType, variant_count_message(n)))
        } else {
            match members_of(cs@, true) {
                Err(e) => Err(e),
                Ok(ms) => Ok(enum_source(n, ms)),
            }
        },
    }
}

proof fn lemma_joined_push(items: Seq<Seq<char>>, sep: Seq<char>, x: Seq<char>)
    ensures
        joined(items.push(x), sep) == if items.len() == 0 {
            x
        } else {
            joined(items, sep) + sep + x
        },
{
    assert(items.push(x).drop_last() =~= items);
}

proof fn lemma_suffixed_push(items: Seq<Seq<char>>, suf: Seq<char>, x: Seq<char>)
    ensures
        suffixed(items.push(x), suf) == suffixed(items, suf) + x + suf,
{
    assert(items.push(x).drop_last() =~= items);
}

fn param_push_text(m: &Member) -> (r: String)
    ensures
        r@ == param_push(m@),
{
    let mut r = String::from_str("types . push (");
    r.append(m.param.as_str());
    r.append(")");
    r
}

fn field_decl_text(m: &Member) -> (r: String)
    ensures
        r@ == field_decl(m@),
{
    let mut r = String::from_str("pub ");
    r.append(m.ident.as_str());
    r.append(" : ");
    r.append(m.ty.as_str());
    r
}

fn field_token_text(m: &Member) -> (r: String)
    ensures
        r@ == field_token(m@),
{
    match m.kind {
        MemberKind::NestedStruct | MemberKind::NestedEnum | MemberKind::Array => {
            let mut r = String::from_str("tokens . push (self . ");
            r.append(m.ident.as_str());
            r.append(" . into_token ())");
            r
        },
        _ => {
            let mut r = String::from_str("tokens . push (Token :: ");
            r.append(m.tag.as_str());
            r.append(" (self . ");
            r.append(m.ident.as_str());
            r.append("))");
            r
        },
    }
}

fn field_arg_text(m: &Member) -> (r: String)
    ensures
        r@ == field_arg(m@),
{
    let mut r = String::from_str(m.ident.as_str());
    match m.kind {
        MemberKind::NestedStruct | MemberKind::NestedEnum => {
            r.append(" : ");
            r.append(m.ty.as_str());
            r.append(" :: from_token (next_token () ?) ?");
        },
        _ => {
            r.append(" : < ");
            r.append(m.ty.as_str());
            r.append(" > :: from_token (next_token () ?) ?");
        },
    }
    r
}

fn dis_literal(i: usize) -> (r: String)
    ensures
        r@ == dis_text(i as nat),
{
    let mut r = decimal_text(i);
    r.append("u8");
    r
}

fn variant_decl_text(m: &Member) -> (r: String)
    ensures
        r@ == variant_decl(m@),
{
    let mut r = String::from_str(m.ident.as_str());
    match m.kind {
        MemberKind::Unit => {
            r.append(" ()");
        },
        _ => {
            r.append(" (");
            r.append(m.ty.as_str());
            r.append(")");
        },
    }
    r
}

fn variant_selector_text(n: &str, i: usize, m: &Member) -> (r: String)
    ensures
        r@ == variant_selector(n@, i as nat, m@),
{
    let mut r = String::from_str(n);
    r.append(" :: ");
    r.append(m.ident.as_str());
    let d = dis_literal(i);
    match m.kind {
        MemberKind::NestedStruct => {
            r.append(" (inner_struct) => (");
            r.append(d.as_str());
            r.append(" , inner_struct . into_token ())");
        },
        MemberKind::NestedEnum => {
            r.append(" (inner_enum) => (");
            r.append(d.as_str());
            r.append(" , inner_enum . into_token ())");
        },
        MemberKind::Unit => {
            r.append(" () => (");
            r.append(d.as_str());
            r.append(" , Token :: Unit)");
        },
        MemberKind::Array => {
            r.append(" (value) => (");
            r.append(d.as_str());
            r.append(" , value . into_token ())");
        },
        MemberKind::Plain => {
            r.append(" (value) => (");
            r.append(d.as_str());
            r.append(" , Token :: ");
            r.append(m.tag.as_str());
            r.append(" (value))");
        },
    }
    r
}

fn variant_arg_text(n: &str, i: usize, m: &Member) -> (r: String)
    ensures
        r@ == variant_arg(n@, i as nat, m@),
{
    let mut r = String::from_str("(");
    r.append(dis_literal(i).as_str());
    r.append(" , token , _) => ");
    match m.kind {
        MemberKind::NestedStruct | MemberKind::NestedEnum => {
            r.append("{ let variant_content = < ");
            r.append(m.ty.as_str());
            r.append(" > :: from_token (token) ? ; Ok (");
            r.append(n);
            r.append(" :: ");
            r.append(m.ident.as_str());
            r.append(" (variant_content)) }");
        },
        MemberKind::Unit => {
            r.append("Ok (");
            r.append(n);
            r.append(" :: ");
            r.append(m.ident.as_str());
            r.append(" ()) ,");
        },
        _ => {
            r.append("Ok (");
            r.append(n);
            r.append(" :: ");
            r.append(m.ident.as_str());
            r.append(" (< ");
            r.append(m.ty.as_str());
            r.append(" > :: from_token (token) ?)) ,");
        },
    }
    r
}

fn try_from_impls(n: &str) -> (r: String)
    ensures
        r@ == try_from_text(n@),
{
    let mut r = String::from_str("impl TryFrom < & [u8] > for ");
    r.append(n);
    r.append(
        " { type Error = SDKError ; fn try_from (bytes : & [u8]) -> Result < Self , Self :: Error > { try_from_bytes (bytes) } } impl TryFrom < & Vec < u8 >> for ",
    );
    r.append(n);
    r.append(
        " { type Error = SDKError ; fn try_from (bytes : & Vec < u8 >) -> Result < Self , Self :: Error > { try_from_bytes (bytes) } } impl TryFrom < Vec < u8 >> for ",
    );
    r.append(n);
    r.append(
        " { type Error = SDKError ; fn try_from (bytes : Vec < u8 >) -> Result < Self , Self :: Error > { try_from_bytes (& bytes) } }",
    );
    r
}

/// The source of the binding of struct `n` with fields `ms` (see [`struct_source`]).
pub fn render_struct(n: &str, ms: &Vec<Member>) -> (r: String)
    ensures
        r@ == struct_source(n@, members_view(ms@)),
{
    let ghost mv = members_view(ms@);
    let mut decls = String::new();
    let mut params = String::new();
    let mut toks = String::new();
    let mut args = String::new();
    let mut i: usize = 0;
    proof {
        assert(decls_of(mv).subrange(0, 0) =~= Seq::<Seq<char>>::empty());
        assert(params_of(mv).subrange(0, 0) =~= Seq::<Seq<char>>::empty());
        assert(field_tokens_of(mv).subrange(0, 0) =~= Seq::<Seq<char>>::empty());
        assert(field_args_of(mv).subrange(0, 0) =~= Seq::<Seq<char>>::empty());
    }
    while i < ms.len()
        invariant
            i <= ms@.len(),
            mv == members_view(ms@),
            decls@ == joined(decls_of(mv).subrange(0, i as int), " , "@),
            params@ == suffixed(params_of(mv).subrange(0, i as int), " ; "@),
            toks@ == suffixed(field_tokens_of(mv).subrange(0, i as int), " ; "@),
            args@ == joined(field_args_of(mv).subrange(0, i as int), " , "@),
        decreases ms@.len() - i,
    {
        let m = &ms[i];
        proof {
            assert(mv[i as int] == m@);
            assert(decls_of(mv).subrange(0, i + 1) =~= decls_of(mv).subrange(0, i as int).push(field_decl(m@)));
            assert(params_of(mv).subrange(0, i + 1) =~= params_of(mv).subrange(0, i as int).push(param_push(m@)));
            assert(field_tokens_of(mv).subrange(0, i + 1) =~= field_tokens_of(mv).subrange(0, i as int).push(field_token(m@)));
            assert(field_args_of(mv).subrange(0, i + 1) =~= field_args_of(mv).subrange(0, i as int).push(field_arg(m@)));
            lemma_joined_push(decls_of(mv).subrange(0, i as int), " , "@, field_decl(m@));
            lemma_suffixed_push(params_of(mv).subrange(0, i as int), " ; "@, param_push(m@));
            lemma_suffixed_push(field_tokens_of(mv).subrange(0, i as int), " ; "@, field_token(m@));
            lemma_joined_push(field_args_of(mv).subrange(0, i as int), " , "@, field_arg(m@));
        }
        if i > 0 {
            decls.append(" , ");
            args.append(" , ");
        }
        decls.append(field_decl_text(m).as_str());
        params.append(param_push_text(m).as_str());
        params.append(" ; ");
        toks.append(field_token_text(m).as_str());
        toks.append(" ; ");
        args.append(field_arg_text(m).as_str());
        i = i + 1;
    }
    proof {
        assert(decls_of(mv).subrange(0, i as int) =~= decls_of(mv));
        assert(params_of(mv).subrange(0, i as int) =~= params_of(mv));
        assert(field_tokens_of(mv).subrange(0, i as int) =~= field_tokens_of(mv));
        assert(field_args_of(mv).subrange(0, i as int) =~= field_args_of(mv));
    }
    let mut r = String::from_str("# [derive (Clone , Debug , Eq , PartialEq)] pub struct ");
    r.append(n);
    r.append(" { ");
    r.append(decls.as_str());
    r.append(" } impl Parameterize for ");
    r.append(n);
    r.append(" { fn param_type () -> ParamType { let mut types = Vec :: new () ; ");
    r.append(params.as_str());
    r.append("ParamType :: Struct (types) } } impl Tokenizable for ");
    r.append(n);
    r.append(" { fn into_token (self) -> Token { let mut tokens = Vec :: new () ; ");
    r.append(toks.as_str());
    r.append(
        "Token :: Struct (tokens) } fn from_token (token : Token) -> Result < Self , SDKError > { match token { Token :: Struct (tokens) => { let mut tokens_iter = tokens . into_iter () ; let mut next_token = move || { tokens_iter . next () . ok_or_else (|| { SDKError :: InstantiationError (format ! (\"Ran out of tokens before '{}' has finished construction!\" , \"",
    );
    r.append(n);
    r.append("\")) }) } ; Ok (Self { ");
    r.append(args.as_str());
    r.append(
        " }) } , other => Err (SDKError :: InstantiationError (format ! (\"Error while constructing '{}'. Expected token of type Token::Struct, got {:?}\" , \"",
    );
    r.append(n);
    r.append("\" , other))) , } } } ");
    r.append(try_from_impls(n).as_str());
    assert(r@ =~= struct_source(n@, mv));
    r
}

/// The source of the binding of enum `n` with variants `ms` (see [`enum_source`]).
pub fn render_enum(n: &str, ms: &Vec<Member>) -> (r: String)
    requires
        ms@.len() <= 256,
    ensures
        r@ == enum_source(n@, members_view(ms@)),
{
    let ghost mv = members_view(ms@);
    let mut decls = String::new();
    let mut params = String::new();
    let mut sels = String::new();
    let mut args = String::new();
    let mut i: usize = 0;
    proof {
        assert(variant_decls_of(mv).subrange(0, 0) =~= Seq::<Seq<char>>::empty());
        assert(params_of(mv).subrange(0, 0) =~= Seq::<Seq<char>>::empty());
        assert(selectors_of(n@, mv).subrange(0, 0) =~= Seq::<Seq<char>>::empty());
        assert(variant_args_of(n@, mv).subrange(0, 0) =~= Seq::<Seq<char>>::empty());
    }
    while i < ms.len()
        invariant
            i <= ms@.len(),
            mv == members_view(ms@),
            decls@ == joined(variant_decls_of(mv).subrange(0, i as int), " , "@),
            params@ == suffixed(params_of(mv).subrange(0, i as int), " ; "@),
            sels@ == suffixed(selectors_of(n@, mv).subrange(0, i as int), " , "@),
            args@ == suffixed(variant_args_of(n@, mv).subrange(0, i as int), " "@),
        decreases ms@.len() - i,
    {
        let m = &ms[i];
        proof {
            assert(mv[i as int] == m@);
            assert(variant_decls_of(mv).subrange(0, i + 1) =~= variant_decls_of(mv).subrange(0, i as int).push(variant_decl(m@)));
            assert(params_of(mv).subrange(0, i + 1) =~= params_of(mv).subrange(0, i as int).push(param_push(m@)));
            assert(selectors_of(n@, mv).subrange(0, i + 1) =~= selectors_of(n@, mv).subrange(0, i as int).push(variant_selector(n@, i as nat, m@)));
            assert(variant_args_of(n@, mv).subrange(0, i + 1) =~= variant_args_of(n@, mv).subrange(0, i as int).push(variant_arg(n@, i as nat, m@)));
            lemma_joined_push(variant_decls_of(mv).subrange(0, i as int), " , "@, variant_decl(m@));
            lemma_suffixed_push(params_of(mv).subrange(0, i as int), " ; "@, param_push(m@));
            lemma_suffixed_push(selectors_of(n@, mv).subrange(0, i as int), " , "@, variant_selector(n@, i as nat, m@));
            lemma_suffixed_push(variant_args_of(n@, mv).subrange(0, i as int), " "@, variant_arg(n@, i as nat, m@));
        }
        if i > 0 {
            decls.append(" , ");
        }
        decls.append(variant_decl_text(m).as_str());
        params.append(param_push_text(m).as_str());
        params.append(" ; ");
        sels.append(variant_selector_text(n, i, m).as_str());
        sels.append(" , ");
        args.append(variant_arg_text(n, i, m).as_str());
        args.append(" ");
        i = i + 1;
    }
    proof {
        assert(variant_decls_of(mv).subrange(0, i as int) =~= variant_decls_of(mv));
        assert(params_of(mv).subrange(0, i as int) =~= params_of(mv));
        assert(selectors_of(n@, mv).subrange(0, i as int) =~= selectors_of(n@, mv));
        assert(variant_args_of(n@, mv).subrange(0, i as int) =~= variant_args_of(n@, mv));
    }
    let mut r = String::from_str("# [derive (Clone , Debug , Eq , PartialEq)] pub enum ");
    r.append(n);
    r.append(" { ");
    r.append(decls.as_str());
    r.append(" } impl Parameterize for ");
    r.append(n);
    r.append(" { fn param_type () -> ParamType { let mut types = Vec :: new () ; ");
    r.append(params.as_str());
    r.append("let variants = EnumVariants :: new (types) . expect (concat ! (\"Enum \" , \"");
    r.append(n);
    r.append(
        "\" , \" has no variants! 'abigen!' should not have succeeded!\")) ; ParamType :: Enum (variants) } } impl Tokenizable for ",
    );
    r.append(n);
    r.append(" { fn into_token (self) -> Token { let (dis , tok) = match self { ");
    r.append(sels.as_str());
    r.append(
        "} ; let variants = match Self :: param_type () { ParamType :: Enum (variants) => variants , other => panic ! (\"Calling ::param_type() on a custom enum must return a ParamType::Enum but instead it returned: {}\" , other) } ; let selector = (dis , tok , variants) ; Token :: Enum (Box :: new (selector)) } fn from_token (token : Token) -> Result < Self , SDKError > { if let Token :: Enum (enum_selector) = token { match * enum_selector { ",
    );
    r.append(args.as_str());
    r.append(
        "(_ , _ , _) => Err (SDKError :: InstantiationError (format ! (\"Could not construct '{}'. Failed to match with discriminant selector {:?}\" , \"",
    );
    r.append(n);
    r.append(
        "\" , enum_selector))) } } else { Err (SDKError :: InstantiationError (format ! (\"Could not construct '{}'. Expected a token of type Token::Enum, got {:?}\" , \"",
    );
    r.append(n);
    r.append("\" , token))) } } } ");
    r.append(try_from_impls(n).as_str());
    assert(r@ =~= enum_source(n@, mv));
    r
}

/// Generates the binding of the struct that `prop` declares: its native
/// record, one field per component in declaration order, with its resolved
/// type and token codec. Fails as [`struct_binding`] says, with the very
/// error of the step that failed: the name's extraction first, then
/// `InvalidType` without fields, then the first field's resolution or nested
/// name extraction.
pub fn expand_custom_struct(prop: &Property) -> (r: Result<String, Error>)
    ensures
        r is Ok <==> struct_binding(*prop) is Ok,
        r is Ok ==> r->Ok_0@ == struct_binding(*prop)->Ok_0,
        r is Err ==> r->Err_0@ == struct_binding(*prop)->Err_0,
{
    let name = match extract_custom_type_name_from_abi_property(prop, Some(CustomType::Struct)) {
        Ok(n) => n,
        Err(e) => return Err(e),
    };
    let cs = match &prop.components {
        Some(cs) if cs.len() > 0 => cs,
        _ => {
            let mut msg = String::from_str("Struct '");
            msg.append(name.as_str());
            msg.append("' must have at least one field!");
            return Err(Error::InvalidType(msg));
        },
    };
    let ms = match members(cs, false) {
        Ok(ms) => ms,
        Err(e) => return Err(e),
    };
    Ok(render_struct(name.as_str(), &ms))
}

/// Generates the binding of enum `enum_name` whose variants are the
/// components of `prop`: its native tagged union, the `i`-th variant with
/// discriminant `i`, with its resolved type and token codec. Fails as
/// [`enum_binding`] says; an enum without variants, absent or empty, always
/// fails with `InvalidType`, with a message that names the enum.
pub fn expand_custom_enum(enum_name: &str, prop: &Property) -> (r: Result<String, Error>)
    ensures
        r is Ok <==> enum_binding(enum_name@, *prop) is Ok,
        r is Ok ==> r->Ok_0@ == enum_binding(enum_name@, *prop)->Ok_0,
        r is Err ==> r->Err_0@ == enum_binding(enum_name@, *prop)->Err_0,
        (prop.components is None || prop.components->Some_0@.len() == 0) ==> (r is Err && r->Err_0@
            == (ErrorKind::InvalidType, variant_count_message(enum_name@))),
{
    let cs = match &prop.components {
        Some(cs) if cs.len() > 0 && cs.len() <= 256 => cs,
        _ => {
            let mut msg = String::from_str("Enum '");
            msg.append(enum_name);
            msg.append("' must have at least one variant, and at most 256!");
            return Err(Error::InvalidType(msg));
        },
    };
    let ms = match members(cs, true) {
        Ok(ms) => ms,
        Err(e) => return Err(e),
    };
    Ok(render_enum(enum_name, &ms))
}

proof fn lemma_member_errors(cs: Seq<Property>, in_enum: bool)
    requires
        members_of(cs, in_enum) is Err,
    ensures
        members_of(cs, in_enum)->Err_0.0 != ErrorKind::InstantiationError,
    decreases cs.len(),
{
    if cs.len() > 0 {
        if members_of(cs.drop_last(), in_enum) is Err {
            lemma_member_errors(cs.drop_last(), in_enum);
        } else {
            let c = cs.last();
            let r = member_of(c, ident_of(c, in_enum), in_enum);
            assert(r is Err);
            if let Err(e) = custom_type_name(c.type_field@, Some(CustomType::Struct)) {
                assert(e.0 != ErrorKind::InstantiationError);
            }
            if let Err(e) = custom_type_name(c.type_field@, Some(CustomType::Enum)) {
                assert(e.0 != ErrorKind::InstantiationError);
            }
            if let Err(e) = custom_type_name(c.type_field@, None) {
                assert(e.0 != ErrorKind::InstantiationError);
            }
        }
    }
}

/// Generation never reports a decode failure: every error of binding
/// generation says that the ABI is malformed (`InvalidType` or
/// `MissingData`), never `InstantiationError`.
pub proof fn lemma_generation_errors_are_not_decode_errors(n: Seq<char>, p: Property)
    ensures
        struct_binding(p) is Err ==> struct_binding(p)->Err_0.0 != ErrorKind::InstantiationError,
        enum_binding(n, p) is Err ==> enum_binding(n, p)->Err_0.0 != ErrorKind::InstantiationError,
{
    if let Some(cs) = p.components {
        if members_of(cs@, false) is Err {
            lemma_member_errors(cs@, false);
        }
        if members_of(cs@, true) is Err {
            lemma_member_errors(cs@, true);
        }
    }
}

proof fn lemma_members_len(cs: Seq<Property>, e: bool)
    requires
        members_of(cs, e) is Ok,
    ensures
        members_of(cs, e)->Ok_0.len() == cs.len(),
    decreases cs.len(),
{
    if cs.len() > 0 {
        lemma_members_len(cs.drop_last(), e);
    }
}

proof fn lemma_members_index(cs: Seq<Property>, e: bool, i: int)
    requires
        members_of(cs, e) is Ok,
        0 <= i < cs.len(),
    ensures
        member_of(cs[i], ident_of(cs[i], e), e) is Ok,
        members_of(cs, e)->Ok_0[i] == member_of(cs[i], ident_of(cs[i], e), e)->Ok_0,
    decreases cs.len(),
{
    let c0 = cs.drop_last();
    lemma_members_len(c0, e);
    if i < cs.len() - 1 {
        lemma_members_index(c0, e, i);
        assert(c0[i] == cs[i]);
    }
}

/// The payload part of the arm that encodes a variant of resolved type `t`
/// with discriminant literal `d`.
pub open spec fn payload_arm(t: PType, d: Seq<char>) -> Seq<char> {
    match t {
        PType::Struct(_) => " (inner_struct) => ("@ + d + " , inner_struct . into_token ())"@,
        PType::Enum(_) => " (inner_enum) => ("@ + d + " , inner_enum . into_token ())"@,
        PType::Unit => " () => ("@ + d + " , Token :: Unit)"@,
        PType::Array(_, _) => " (value) => ("@ + d + " , value . into_token ())"@,
        _ => " (value) => ("@ + d + " , Token :: "@ + tag_text(t) + " (value))"@,
    }
}

/// The statement that pushes the token of field `f` of resolved type `t`.
pub open spec fn field_push(t: PType, f: Seq<char>) -> Seq<char> {
    match t {
        PType::Struct(_) | PType::Enum(_) | PType::Array(_, _) => "tokens . push (self . "@ + f
            + " . into_token ())"@,
        _ => "tokens . push (Token :: "@ + tag_text(t) + " (self . "@ + f + "))"@,
    }
}

/// Generated enums keep declaration order and delegate: the arm of the
/// `i`-th variant encodes it with discriminant `i`; its payload is a nested
/// type's own token, an array's own token (one `Array` tag over its
/// elements), the unit token, or the value under its kind's tag (`String`
/// for a string of any length).
pub proof fn lemma_enum_arms(n: Seq<char>, p: Property, i: int)
    requires
        enum_binding(n, p) is Ok,
        0 <= i < p.components->Some_0@.len(),
    ensures
        ({
            let cs = p.components->Some_0@;
            let ms = members_of(cs, true)->Ok_0;
            &&& resolve(cs[i]) is Ok
            &&& ms.len() == cs.len()
            &&& selectors_of(n, ms)[i] == n + " :: "@ + cs[i].name@ + payload_arm(
                resolve(cs[i])->Ok_0,
                dis_text(i as nat),
            )
        }),
{
    let cs = p.components->Some_0@;
    lemma_members_len(cs, true);
    lemma_members_index(cs, true, i);
}

/// Generated structs keep declaration order and delegate: the `i`-th slot of
/// the token is the `i`-th field's own token when that field is a nested
/// struct or enum or an array (one `Array` tag over its elements), and the
/// field under its kind's tag otherwise (`String` for a string of any
/// length). A nested enum field takes its resolved type and its value from
/// that enum's own `param_type` and `from_token`.
pub proof fn lemma_struct_slots(p: Property, i: int)
    requires
        struct_binding(p) is Ok,
        0 <= i < p.components->Some_0@.len(),
    ensures
        ({
            let cs = p.components->Some_0@;
            let ms = members_of(cs, false)->Ok_0;
            &&& resolve(cs[i]) is Ok
            &&& ms.len() == cs.len()
            &&& field_tokens_of(ms)[i] == field_push(resolve(cs[i])->Ok_0, snake_case_of(cs[i].name@))
            &&& resolve(cs[i])->Ok_0 is Enum ==> {
                let b = custom_type_name(cs[i].type_field@, Some(CustomType::Enum))->Ok_0;
                &&& custom_type_name(cs[i].type_field@, Some(CustomType::Enum)) is Ok
                &&& params_of(ms)[i] == "types . push ("@ + b + " :: param_type ()"@ + ")"@
                &&& field_args_of(ms)[i] == snake_case_of(cs[i].name@) + " : "@ + b
                    + " :: from_token (next_token () ?) ?"@
            }
        }),
{
    let cs = p.components->Some_0@;
    lemma_members_len(cs, false);
    lemma_members_index(cs, false, i);
    let t = resolve(cs[i])->Ok_0;
    if t is Enum {
        let b = custom_type_name(cs[i].type_field@, Some(CustomType::Enum))->Ok_0;
        let ms = members_of(cs, false)->Ok_0;
        let c = cs[i];
        let m = member_of(c, ident_of(c, false), false)->Ok_0;
        assert(param_text(t, b) == b + " :: param_type ()"@);
        assert(m.param == param_text(t, b));
        assert(params_of(ms)[i] == param_push(m));
        assert(param_push(m) =~= "types . push ("@ + b + " :: param_type ()"@ + ")"@);
    }
}

} // verus!
