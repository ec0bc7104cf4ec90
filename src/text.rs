//! Text helpers shared by the descriptor parser and the execution engine,
//! together with the outside calls they rely on.

use vstd::prelude::*;
use vstd::string::*;

verus! {

/// What `str::to_lowercase` makes of a text.
pub uninterp spec fn lower_of(s: Seq<char>) -> Seq<char>;

/// What the `toml` crate reads from a document whose top-level entries all
/// hold strings: the entries in document order, or `None` where the document
/// is malformed or holds another kind of value.
pub uninterp spec fn string_table_of(text: Seq<char>) -> Option<Seq<(Seq<char>, Seq<char>)>>;

/// The standard base64 encoding (with padding) of the UTF-8 bytes of a text.
pub uninterp spec fn base64_of(s: Seq<char>) -> Seq<char>;

/// The view of a list of string pairs.
pub open spec fn pairs_view(v: Seq<(String, String)>) -> Seq<(Seq<char>, Seq<char>)> {
    v.map_values(|p: (String, String)| (p.0@, p.1@))
}

/// No key occurs twice in a table.
pub open spec fn keys_distinct(t: Seq<(Seq<char>, Seq<char>)>) -> bool {
    forall|i: int, j: int| 0 <= i < t.len() && 0 <= j < t.len() && i != j ==> t[i].0 != t[j].0
}

/// The value stored under `k`; the last entry wins should a key repeat.
pub open spec fn table_lookup(t: Seq<(Seq<char>, Seq<char>)>, k: Seq<char>) -> Option<Seq<char>>
    decreases t.len(),
{
    if t.len() == 0 {
        None
    } else if t.last().0 == k {
        Some(t.last().1)
    } else {
        table_lookup(t.drop_last(), k)
    }
}

#[verifier::external_type_specification]
#[verifier::external_body]
pub struct ExTomlError(toml::de::Error);

/// Relies on `str::to_lowercase`: the result depends on the characters alone.
#[verifier::external_body]
pub(crate) fn lowercase(s: &str) -> (r: String)
    ensures
        r@ == lower_of(s@),
{
    s.to_lowercase()
}

/// Relies on `toml::from_str` into a `toml::Table`, which (with the
/// `preserve_order` feature) keeps the entries in document order and holds each
/// key once. `Err` is a malformed document, `Ok(None)` one with a value that is
/// not a string.
#[verifier::external_body]
pub(crate) fn parse_string_table(text: &str) -> (r: Result<Option<Vec<(String, String)>>, toml::de::Error>)
    ensures
        (r is Ok && r->Ok_0 is Some) <==> string_table_of(text@) is Some,
        r matches Ok(Some(v)) ==> string_table_of(text@) == Some(pairs_view(v@)),
        r matches Ok(Some(v)) ==> keys_distinct(pairs_view(v@)),
{
    let table = match toml::from_str::<toml::Table>(text) {
        Ok(t) => t,
        Err(e) => return Err(e),
    };
    let mut v = Vec::new();
    for (k, value) in table {
        match value {
            toml::Value::String(s) => v.push((k, s)),
            _ => return Ok(None),
        }
    }
    Ok(Some(v))
}

/// Relies on the `Display` impl of `toml::de::Error` for a readable message.
#[verifier::external_body]
pub(crate) fn toml_error_message(e: &toml::de::Error) -> String {
    format!("{}", e)
}

/// Relies on `base64::Engine::encode` with the `STANDARD` engine: the result
/// depends on the text alone.
#[verifier::external_body]
pub(crate) fn encode_base64(s: &str) -> (r: String)
    ensures
        r@ == base64_of(s@),
{
    base64::Engine::encode(&base64::engine::general_purpose::STANDARD, s)
}

/// Whether two texts hold the same characters.
pub fn same_text(a: &str, b: &str) -> (r: bool)
    ensures
        r == (a@ == b@),
{
    let n = a.unicode_len();
    if n != b.unicode_len() {
        return false;
    }
    let mut i: usize = 0;
    while i < n
        invariant
            n == a@.len(),
            n == b@.len(),
            i <= n,
            forall|j: int| 0 <= j < i ==> a@[j] == b@[j],
        decreases n - i,
    {
        if a.get_char(i) != b.get_char(i) {
            return false;
        }
        i = i + 1;
    }
    assert(a@ =~= b@);
    true
}

/// Looks up `k` in a table of string pairs.
pub fn lookup<'a>(t: &'a Vec<(String, String)>, k: &str) -> (r: Option<&'a String>)
    ensures
        match r {
            Some(v) => table_lookup(pairs_view(t@), k@) == Some(v@),
            None => table_lookup(pairs_view(t@), k@) is None,
        },
{
    let mut i: usize = t.len();
    assert(t@.subrange(0, i as int) =~= t@);
    while i > 0
        invariant
            i <= t.len(),
            table_lookup(pairs_view(t@), k@) == table_lookup(pairs_view(t@.subrange(0, i as int)), k@),
        decreases i,
    {
        let ghost pre = pairs_view(t@.subrange(0, i as int));
        assert(pre.last() == (t@[i - 1].0@, t@[i - 1].1@));
        if same_text(t[i - 1].0.as_str(), k) {
            return Some(&t[i - 1].1);
        }
        assert(pre.drop_last() =~= pairs_view(t@.subrange(0, i - 1)));
        i = i - 1;
    }
    None
}

} // verus!
