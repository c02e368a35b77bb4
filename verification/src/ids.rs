//! Identifiers and storage paths: decimal rendering of chunk indices,
//! the derived vector id `"{document_id}-{chunk_id}"`, the blob storage
//! path derived from the content type, and fresh document ids.

use vstd::prelude::*;
use vstd::string::StringExecFns;

verus! {

/// The character for the decimal digit `d`.
pub open spec fn digit_char(d: nat) -> char {
    if d == 0 {
        '0'
    } else if d == 1 {
        '1'
    } else if d == 2 {
        '2'
    } else if d == 3 {
        '3'
    } else if d == 4 {
        '4'
    } else if d == 5 {
        '5'
    } else if d == 6 {
        '6'
    } else if d == 7 {
        '7'
    } else if d == 8 {
        '8'
    } else {
        '9'
    }
}

/// The decimal rendering of `n`, most significant digit first,
/// without leading zeros (the number zero renders as "0").
pub open spec fn spec_decimal(n: nat) -> Seq<char>
    decreases n,
{
    if n < 10 {
        seq![digit_char(n)]
    } else {
        spec_decimal(n / 10).push(digit_char(n % 10))
    }
}

/// The derived id of the vector entry for chunk `i` of document `d`:
/// the document id, a hyphen, and the decimal chunk index.
pub open spec fn spec_vector_id(document_id: Seq<char>, chunk_id: nat) -> Seq<char> {
    document_id + seq!['-'] + spec_decimal(chunk_id)
}

/// A one-character string slice for the decimal digit `d`.
fn digit_str(d: u64) -> (r: &'static str)
    requires
        d < 10,
    ensures
        r@ == seq![digit_char(d as nat)],
{
    proof {
        reveal_strlit("0");
        reveal_strlit("1");
        reveal_strlit("2");
        reveal_strlit("3");
        reveal_strlit("4");
        reveal_strlit("5");
        reveal_strlit("6");
        reveal_strlit("7");
        reveal_strlit("8");
        reveal_strlit("9");
    }
    let r: &'static str = if d == 0 {
        "0"
    } else if d == 1 {
        "1"
    } else if d == 2 {
        "2"
    } else if d == 3 {
        "3"
    } else if d == 4 {
        "4"
    } else if d == 5 {
        "5"
    } else if d == 6 {
        "6"
    } else if d == 7 {
        "7"
    } else if d == 8 {
        "8"
    } else {
        "9"
    };
    proof {
        assert(r@ =~= seq![digit_char(d as nat)]);
    }
    r
}

/// Appends the decimal rendering of `n` to `s`.
fn push_decimal(s: &mut String, n: u64)
    ensures
        final(s)@ == old(s)@ + spec_decimal(n as nat),
    decreases n,
{
    if n < 10 {
        s.append(digit_str(n));
    } else {
        push_decimal(s, n / 10);
        s.append(digit_str(n % 10));
        proof {
            assert(s@ =~= old(s)@ + spec_decimal(n as nat));
        }
    }
}

/// Builds the vector id `"{document_id}-{chunk_id}"`. The id depends on
/// the document id and the chunk position alone, never on when the
/// chunk's embedding was computed.
pub fn vector_id(document_id: &str, chunk_id: u64) -> (r: String)
    ensures
        r@ == spec_vector_id(document_id@, chunk_id as nat),
{
    proof {
        reveal_strlit("-");
    }
    let mut s = document_id.to_owned();
    s.append("-");
    push_decimal(&mut s, chunk_id);
    proof {
        assert("-"@ =~= seq!['-']);
        assert(s@ =~= spec_vector_id(document_id@, chunk_id as nat));
    }
    s
}

/// The file extension recorded for a MIME content type. Types the
/// service does not recognize fall back to "bin".
pub open spec fn spec_extension(content_type: Seq<char>) -> Seq<char> {
    if content_type == "text/html"@ {
        "html"@
    } else if content_type == "text/plain"@ {
        "txt"@
    } else if content_type == "application/pdf"@ {
        "pdf"@
    } else if content_type == "application/json"@ {
        "json"@
    } else if content_type == "text/markdown"@ {
        "md"@
    } else {
        "bin"@
    }
}

/// The blob store path for a document's raw content:
/// `"content/{document_id}.{extension}"`.
pub open spec fn spec_bucket_path(content_type: Seq<char>, document_id: Seq<char>) -> Seq<char> {
    "content/"@ + document_id + "."@ + spec_extension(content_type)
}

/// Maps a MIME content type to the recorded file extension.
pub fn get_extension_from_content_type(content_type: &String) -> (r: &'static str)
    ensures
        r@ == spec_extension(content_type@),
{
    if *content_type == String::from_str("text/html") {
        "html"
    } else if *content_type == String::from_str("text/plain") {
        "txt"
    } else if *content_type == String::from_str("application/pdf") {
        "pdf"
    } else if *content_type == String::from_str("application/json") {
        "json"
    } else if *content_type == String::from_str("text/markdown") {
        "md"
    } else {
        "bin"
    }
}

/// Derives the blob store path for a document's raw content from its
/// content type and id.
pub fn get_bucket_path(content_type: &String, link_id: &str) -> (r: String)
    ensures
        r@ == spec_bucket_path(content_type@, link_id@),
{
    let extension = get_extension_from_content_type(content_type);
    let mut s = "content/".to_owned();
    s.append(link_id);
    s.append(".");
    s.append(extension);
    proof {
        assert(s@ =~= spec_bucket_path(content_type@, link_id@));
    }
    s
}

/// A decimal rendering is never empty, and a number of two or more
/// digits renders to two or more characters.
pub proof fn lemma_decimal_len(n: nat)
    ensures
        spec_decimal(n).len() >= 1,
        n >= 10 ==> spec_decimal(n).len() >= 2,
    decreases n,
{
    if n >= 10 {
        lemma_decimal_len(n / 10);
    }
}

/// Distinct numbers have distinct decimal renderings.
pub proof fn lemma_decimal_injective(a: nat, b: nat)
    requires
        spec_decimal(a) == spec_decimal(b),
    ensures
        a == b,
    decreases a,
{
    lemma_decimal_len(a);
    lemma_decimal_len(b);
    if a < 10 && b < 10 {
        assert(spec_decimal(a) == seq![digit_char(a)]);
        assert(spec_decimal(b) == seq![digit_char(b)]);
        assert(seq![digit_char(a)][0] == digit_char(a));
        assert(seq![digit_char(b)][0] == digit_char(b));
        assert(digit_char(a) == digit_char(b));
        lemma_digit_char_injective(a, b);
    } else if a < 10 || b < 10 {
        assert(false);
    } else {
        assert(spec_decimal(a) == spec_decimal(a / 10).push(digit_char(a % 10)));
        assert(spec_decimal(b) == spec_decimal(b / 10).push(digit_char(b % 10)));
        assert(spec_decimal(a).last() == digit_char(a % 10));
        assert(spec_decimal(b).last() == digit_char(b % 10));
        lemma_digit_char_injective(a % 10, b % 10);
        assert(spec_decimal(a).drop_last() =~= spec_decimal(a / 10));
        assert(spec_decimal(b).drop_last() =~= spec_decimal(b / 10));
        lemma_decimal_injective(a / 10, b / 10);
    }
}

/// Distinct digits have distinct digit characters.
pub proof fn lemma_digit_char_injective(a: nat, b: nat)
    requires
        a < 10,
        b < 10,
        digit_char(a) == digit_char(b),
    ensures
        a == b,
{
}

/// Within one document, distinct chunk positions always get distinct
/// vector ids: `"{d}-{i}"` determines `i`.
pub proof fn lemma_vector_id_injective(document_id: Seq<char>, i: nat, j: nat)
    requires
        spec_vector_id(document_id, i) == spec_vector_id(document_id, j),
    ensures
        i == j,
{
    let p = document_id + seq!['-'];
    lemma_decimal_len(i);
    lemma_decimal_len(j);
    assert(spec_vector_id(document_id, i) == p + spec_decimal(i));
    assert(spec_vector_id(document_id, j) == p + spec_decimal(j));
    assert((p + spec_decimal(i)).len() == p.len() + spec_decimal(i).len());
    assert((p + spec_decimal(j)).len() == p.len() + spec_decimal(j).len());
    assert(spec_decimal(i).len() == spec_decimal(j).len());
    assert forall|k: int| 0 <= k < spec_decimal(i).len() implies spec_decimal(i)[k]
        == spec_decimal(j)[k] by {
        assert(spec_decimal(i)[k] == (p + spec_decimal(i))[p.len() + k]);
        assert(spec_decimal(j)[k] == (p + spec_decimal(j))[p.len() + k]);
    }
    assert(spec_decimal(i) =~= spec_decimal(j));
    lemma_decimal_injective(i, j);
}

/// The contrapositive reading: chunk `i` and chunk `j` of one document
/// never share a vector id unless `i == j`.
pub proof fn lemma_vector_ids_distinct(document_id: Seq<char>, i: nat, j: nat)
    requires
        i != j,
    ensures
        spec_vector_id(document_id, i) != spec_vector_id(document_id, j),
{
    if spec_vector_id(document_id, i) == spec_vector_id(document_id, j) {
        lemma_vector_id_injective(document_id, i, j);
    }
}

/// Relies on `uuid::Uuid::new_v4` and the `Display` of `uuid::Uuid`:
/// a fresh random version-4 UUID, rendered in the hyphenated form,
/// which is 36 characters long (`uuid::fmt::Hyphenated::LENGTH`).
/// The value is random, so nothing more is promised of it.
#[verifier::external_body]
pub(crate) fn new_document_id() -> (r: String)
    ensures
        r@.len() == 36,
{
    uuid::Uuid::new_v4().to_string()
}

} // verus!

