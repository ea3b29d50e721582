//! Extraction of a custom type's name from a type tag such as `struct Foo`,
//! `enum Bar` or `[struct Foo; 2]`.
use vstd::prelude::*;
use vstd::string::*;
use crate::abi::{CustomType, Error, ErrorKind, Property, kind_keyword};
use crate::text::{words, is_ws, chars_of, split_words, range_is};

verus! {

/// The index of the first `c` in `s` at or after `i`, or `s.len()`.
pub open spec fn index_of_or_len(s: Seq<char>, c: char, i: int) -> int
    decreases s.len() - i,
{
    if i >= s.len() {
        s.len() as int
    } else if s[i] == c {
        i
    } else {
        index_of_or_len(s, c, i + 1)
    }
}

pub open spec fn is_bracketed(tf: Seq<char>) -> bool {
    tf.len() > 0 && tf[0] == '[' && tf.last() == ']'
}

/// The `kind name` part of a type tag: inside brackets, what stands between
/// the `[` and the first `;`; otherwise the whole tag.
pub open spec fn custom_type_part(tf: Seq<char>) -> Seq<char> {
    if is_bracketed(tf) {
        tf.subrange(1, index_of_or_len(tf, ';', 0))
    } else {
        tf
    }
}

/// The message of a tag that is not two words.
pub open spec fn not_two_words_message() -> Seq<char> {
    "The declared type was not in the format `{enum,struct} name`"@
}

/// The message of a tag whose kind is `declared` where `expected` is wanted.
pub open spec fn kind_mismatch_message(expected: Seq<char>, declared: Seq<char>) -> Seq<char> {
    "Expected "@ + expected + " but "@ + declared + " was declared"@
}

/// The name that a type tag declares, or the error: its kind and message.
pub open spec fn custom_type_name(tf: Seq<char>, expected: Option<CustomType>) -> Result<
    Seq<char>,
    (ErrorKind, Seq<char>),
> {
    let w = words(custom_type_part(tf));
    if w.len() != 2 {
        Err((ErrorKind::MissingData, not_two_words_message()))
    } else if expected is Some && w[0] != kind_keyword(expected->Some_0) {
        Err((ErrorKind::InvalidType, kind_mismatch_message(kind_keyword(expected->Some_0), w[0])))
    } else {
        Ok(w[1])
    }
}

proof fn lemma_index_of_bounds(s: Seq<char>, c: char, i: int)
    requires
        0 <= i <= s.len(),
    ensures
        i <= index_of_or_len(s, c, i) <= s.len(),
    decreases s.len() - i,
{
    if i < s.len() && s[i] != c {
        lemma_index_of_bounds(s, c, i + 1);
    }
}

/// The index of the first `c` in `s`, or its length.
fn index_of(s: &Vec<char>, c: char) -> (r: usize)
    ensures
        r == index_of_or_len(s@, c, 0),
{
    let mut k: usize = 0;
    while k < s.len()
        invariant
            k <= s@.len(),
            index_of_or_len(s@, c, 0) == index_of_or_len(s@, c, k as int),
        decreases s@.len() - k,
    {
        if s[k] == c {
            return k;
        }
        k = k + 1;
    }
    k
}

/// Returns the bare name of the custom type that `prop`'s type tag declares
/// (`bar` for `struct bar`, `enum bar` or `[struct bar; 3]`). Fails with
/// `MissingData` unless the tag splits into exactly two words, and with
/// `InvalidType`, naming both kinds, when the first word is not the
/// expected kind. The result depends on the type tag alone.
pub fn extract_custom_type_name_from_abi_property(
    prop: &Property,
    expected: Option<CustomType>,
) -> (r: Result<String, Error>)
    ensures
        r is Ok <==> custom_type_name(prop.type_field@, expected) is Ok,
        r is Ok ==> r->Ok_0@ == custom_type_name(prop.type_field@, expected)->Ok_0,
        r is Err ==> r->Err_0@ == custom_type_name(prop.type_field@, expected)->Err_0,
{
    let tf: &str = prop.type_field.as_str();
    let all = chars_of(tf);
    let n = all.len();
    let bracketed = n > 0 && all[0] == '[' && all[n - 1] == ']';
    let (off, end) = if bracketed {
        proof {
            assert(all@[0] != ';');
            assert(index_of_or_len(all@, ';', 0) == index_of_or_len(all@, ';', 1));
            lemma_index_of_bounds(all@, ';', 1);
        }
        (1, index_of(&all, ';'))
    } else {
        assert(all@.subrange(0, n as int) =~= all@);
        (0, n)
    };
    let part = tf.substring_char(off, end);
    let chars = chars_of(part);
    let ws = split_words(&chars);
    if ws.len() != 2 {
        let msg = String::from_str("The declared type was not in the format `{enum,struct} name`");
        return Err(Error::MissingData(msg));
    }
    let (k0, k1) = ws[0];
    if let Some(kind) = expected {
        let kw = kind.keyword();
        if !range_is(&chars, k0, k1, kw) {
            let mut msg = String::from_str("Expected ");
            msg.append(kw);
            msg.append(" but ");
            msg.append(part.substring_char(k0, k1));
            msg.append(" was declared");
            return Err(Error::InvalidType(msg));
        }
    }
    let (n0, n1) = ws[1];
    Ok(String::from_str(part.substring_char(n0, n1)))
}

proof fn lemma_words_single(s: Seq<char>)
    requires
        s.len() > 0,
        forall|i: int| 0 <= i < s.len() ==> !is_ws(#[trigger] s[i]),
    ensures
        words(s) == seq![s],
    decreases s.len(),
{
    let t = s.drop_last();
    assert(!is_ws(s[s.len() - 1]));
    if s.len() == 1 {
        assert(t =~= Seq::<char>::empty());
        assert(words(t) =~= Seq::<Seq<char>>::empty());
        assert(seq![s.last()] =~= s);
    } else {
        assert(!is_ws(s[s.len() - 2]));
        lemma_words_single(t);
        assert(t.push(s.last()) =~= s);
        assert(seq![t].update(0, t.push(s.last())) =~= seq![s]);
    }
}

proof fn lemma_words_after_space(a: Seq<char>, b: Seq<char>)
    requires
        a.len() > 0,
        is_ws(a.last()),
        b.len() > 0,
        forall|i: int| 0 <= i < b.len() ==> !is_ws(#[trigger] b[i]),
    ensures
        words(a + b) == words(a).push(b),
    decreases b.len(),
{
    let s = a + b;
    assert(s.last() == b.last());
    if b.len() == 1 {
        assert(s.drop_last() =~= a);
        assert(s[s.len() - 2] == a.last());
        assert(seq![s.last()] =~= b);
    } else {
        let b0 = b.drop_last();
        assert(s.drop_last() =~= a + b0);
        assert(s[s.len() - 2] == b[b.len() - 2]);
        lemma_words_after_space(a, b0);
        assert(b0.push(b.last()) =~= b);
        assert(words(a).push(b0).update(words(a).len() as int, b0.push(b.last())) =~= words(a).push(b));
    }
}

proof fn lemma_words_at_most_one(s: Seq<char>)
    requires
        forall|i: int| 0 <= i < s.len() ==> !is_ws(#[trigger] s[i]),
    ensures
        words(s).len() <= 1,
{
    if s.len() > 0 {
        lemma_words_single(s);
    }
}

/// Kind mismatch: a tag `enum <name>` yields `<name>` where an enum is
/// expected and fails with `InvalidType` where a struct is expected, with a
/// message that names both kinds.
pub proof fn lemma_enum_tag_is_not_a_struct(name: Seq<char>)
    requires
        name.len() > 0,
        forall|i: int| 0 <= i < name.len() ==> !is_ws(#[trigger] name[i]),
    ensures
        custom_type_name("enum "@ + name, Some(CustomType::Struct)) == Err::<
            Seq<char>,
            (ErrorKind, Seq<char>),
        >((ErrorKind::InvalidType, kind_mismatch_message("struct"@, "enum"@))),
        custom_type_name("enum "@ + name, Some(CustomType::Enum)) == Ok::<
            Seq<char>,
            (ErrorKind, Seq<char>),
        >(name),
{
    reveal_strlit("enum ");
    reveal_strlit("enum");
    reveal_strlit("struct");
    let a = "enum "@;
    let tf = a + name;
    assert(tf[0] == 'e');
    assert(custom_type_part(tf) == tf);
    assert(a.drop_last() =~= "enum"@);
    lemma_words_single("enum"@);
    assert(words(a) == words("enum"@));
    lemma_words_after_space(a, name);
    assert(words(tf) =~= seq!["enum"@, name]);
    assert("enum"@ != "struct"@);
}

/// Malformed tag: a tag without whitespace that is not bracketed holds at
/// most one word, so no name comes out of it: `MissingData`.
pub proof fn lemma_tag_without_space_is_missing_data(tf: Seq<char>, expected: Option<CustomType>)
    requires
        !is_bracketed(tf),
        forall|i: int| 0 <= i < tf.len() ==> !is_ws(#[trigger] tf[i]),
    ensures
        custom_type_name(tf, expected) == Err::<Seq<char>, (ErrorKind, Seq<char>)>(
            (ErrorKind::MissingData, not_two_words_message()),
        ),
{
    lemma_words_at_most_one(tf);
}

} // verus!
