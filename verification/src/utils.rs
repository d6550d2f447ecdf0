//! Input cleaning, the JSON boundary of the remote resolver and the static
//! table, the system resolver's output normalization, and trusted
//! specifications for the few `std` string operations that `vstd` does not
//! cover.

use vstd::prelude::*;

verus! {

/// `serde_json::Value`, declared so that a parsed JSON document can flow
/// through verified code. The type is opaque here: everything read out of a
/// value happens inside the trusted extraction wrappers below.
#[verifier::external_type_specification]
#[verifier::external_body]
pub struct ExValue(serde_json::Value);

/// `serde_json::Error`, declared so that the parse wrapper can hand the
/// crate's own error through; verified code only maps it to a library error.
#[verifier::external_type_specification]
#[verifier::external_body]
pub struct ExJsonError(serde_json::Error);

/// Whether `serde_json::from_str` accepts a text as one JSON document. The
/// parse outcome is a function of the text alone, so it carries a name; what
/// the parsed value is stays unstated.
pub uninterp spec fn spec_parses_json(text: Seq<char>) -> bool;

/// Relies on `serde_json::from_str`: parses one JSON document, succeeding
/// exactly on the texts `spec_parses_json` names, or reports the crate's
/// parse error. Nothing is assumed about the parsed value.
#[verifier::external_body]
pub fn parse_json(text: &str) -> (r: Result<serde_json::Value, serde_json::Error>)
    ensures
        r is Ok <==> spec_parses_json(text@),
{
    serde_json::from_str(text)
}

/// Relies on `<str as PartialEq>::eq`: two string slices are equal exactly
/// when they consist of the same characters.
pub assume_specification[ <str as PartialEq>::eq ](a: &str, b: &str) -> (r: bool)
    ensures
        r == (a@ == b@),
;

/// Relies on `String::push`: appends the character to the end of the string.
pub assume_specification[ String::push ](s: &mut String, ch: char)
    ensures
        final(s)@ == old(s)@.push(ch),
;

/// An ASCII graphic character: the printable range, space excluded.
pub open spec fn is_ascii_graphic_char(c: char) -> bool {
    0x21 <= (c as u32) <= 0x7e
}

/// The characters of `s` that are ASCII graphic, in order: what is left of
/// an input after whitespace and non-printable characters are removed.
pub open spec fn spec_cleaned(s: Seq<char>) -> Seq<char> {
    s.filter(|c: char| is_ascii_graphic_char(c))
}

/// Removes whitespace and non-printable characters from the input, keeping
/// only ASCII graphic characters.
pub fn clean_io(origin: &str) -> (r: String)
    ensures
        r@ == spec_cleaned(origin@),
{
    let n = origin.unicode_len();
    let mut cleaned = String::new();
    let mut i: usize = 0;
    proof {
        reveal(Seq::filter);
        assert(origin@.take(0) =~= Seq::<char>::empty());
        assert(spec_cleaned(origin@.take(0)) =~= Seq::<char>::empty());
    }
    while i < n
        invariant
            i <= n,
            n == origin@.len(),
            cleaned@ == spec_cleaned(origin@.take(i as int)),
        decreases n - i,
    {
        let c = origin.get_char(i);
        let code = c as u32;
        if 0x21 <= code && code <= 0x7e {
            cleaned.push(c);
        }
        proof {
            reveal(Seq::filter);
            let prefix = origin@.take(i + 1);
            assert(prefix.drop_last() =~= origin@.take(i as int));
            assert(prefix.last() == origin@[i as int]);
            if is_ascii_graphic_char(origin@[i as int]) {
                assert(spec_cleaned(prefix) == spec_cleaned(origin@.take(i as int)).push(
                    origin@[i as int],
                ));
            } else {
                assert(spec_cleaned(prefix) == spec_cleaned(origin@.take(i as int)));
            }
        }
        i += 1;
    }
    proof {
        assert(origin@.take(n as int) =~= origin@);
    }
    cleaned
}

/// The library's own parse errors: a body that is not valid JSON, a
/// response envelope without a first answer record, or a static-table
/// record that is not an object with string `domain` and `ip` fields.
#[derive(Clone, Copy, Debug, PartialEq, Eq, Structural)]
pub enum DnsError {
    InvalidJson,
    NoAnswer,
    InvalidRecord,
}

/// The first answer record of a remote resolver's JSON envelope.
pub struct DnsResponse {
    pub ip_address: String,
}

/// The first answer record's data string of a DNS-over-HTTPS response text:
/// the string under `Answer[0].data` when the text is one JSON document
/// holding one, `None` when it holds none. The outcome is a function of the
/// text alone, so it carries a name; what it is on a given text is
/// deliberately unstated.
pub uninterp spec fn spec_answer_of(text: Seq<char>) -> Option<Seq<char>>;

/// Relies on serde_json's `from_str`, `Value::get` and `Value::as_str`: the
/// string under `Answer[0].data` of the parsed text, `None` when the text
/// is not valid JSON or the envelope holds no such string. Every call in
/// the body is a pure function of the text, so the result is pinned to
/// `spec_parses_json` and `spec_answer_of`.
#[verifier::external_body]
fn extract_first_answer(text: &str) -> (r: Option<String>)
    ensures
        r is Some <==> (spec_parses_json(text@) && spec_answer_of(text@) is Some),
        (r matches Some(s) ==> Some(s@) == spec_answer_of(text@)),
{
    let json: serde_json::Value = serde_json::from_str(text).ok()?;
    let data = json.get("Answer")?.get(0)?.get("data")?.as_str()?;
    Some(data.to_owned())
}

/// The compute half of a remote DNS-over-HTTPS query: parses the response
/// body an I/O layer fetched and extracts the first answer record.
/// Success is owed exactly when the text parses and holds a first answer
/// record, and the returned address is that record's data string;
/// `InvalidJson` reports exactly the texts the parse wrapper rejects,
/// `NoAnswer` exactly the well-formed envelopes without an answer. A
/// missing answer is a failure of the remote tier, so that resolution
/// falls through to the system resolver and nothing is cached.
pub fn parse_dns_answer(response_text: &str) -> (r: Result<DnsResponse, DnsError>)
    ensures
        r is Ok <==> (spec_parses_json(response_text@) && spec_answer_of(response_text@) is Some),
        (r matches Ok(resp) ==> Some(resp.ip_address@) == spec_answer_of(response_text@)),
        (r matches Err(e) ==> (e == DnsError::InvalidJson <==> !spec_parses_json(
            response_text@,
        ))),
        (r matches Err(e) ==> (e == DnsError::NoAnswer <==> (spec_parses_json(response_text@)
            && spec_answer_of(response_text@) is None))),
{
    match extract_first_answer(response_text) {
        Some(ip_address) => Ok(DnsResponse { ip_address }),
        None => match parse_json(response_text) {
            Ok(_) => Err(DnsError::NoAnswer),
            Err(_) => Err(DnsError::InvalidJson),
        },
    }
}

/// The view of an extracted record list: each pair as character sequences.
pub open spec fn records_view(records: Seq<(String, String)>) -> Seq<(Seq<char>, Seq<char>)> {
    records.map_values(|p: (String, String)| (p.0@, p.1@))
}

/// The domain-to-IP record list of a static-table text: the records in
/// order when the text is one JSON array of objects with string `domain`
/// and `ip` fields, `None` when it is anything else. The outcome is a
/// function of the text alone, so it carries a name; what it is on a given
/// text is deliberately unstated.
pub uninterp spec fn spec_records_of(text: Seq<char>) -> Option<Seq<(Seq<char>, Seq<char>)>>;

/// Relies on serde_json's `from_str`, `Value::as_array`, `Value::get` and
/// `Value::as_str`: the `(domain, ip)` pairs of the parsed array, in order,
/// `None` when the text is not valid JSON or any record lacks the two
/// string fields. Every call in the body is a pure function of the text,
/// so the result is pinned to `spec_parses_json` and `spec_records_of`.
#[verifier::external_body]
fn extract_table_records(contents: &str) -> (r: Option<Vec<(String, String)>>)
    ensures
        r is Some <==> (spec_parses_json(contents@) && spec_records_of(contents@) is Some),
        (r matches Some(v) ==> Some(records_view(v@)) == spec_records_of(contents@)),
{
    let json: serde_json::Value = serde_json::from_str(contents).ok()?;
    let array = json.as_array()?;
    let mut records = Vec::new();
    for record in array {
        let domain = record.get("domain")?.as_str()?;
        let ip = record.get("ip")?.as_str()?;
        records.push((domain.to_owned(), ip.to_owned()));
    }
    Some(records)
}

/// Parses the static-table configuration: a JSON array of objects, each
/// with string `domain` and `ip` fields, in order. Success is owed exactly
/// when the text is such an array, and the returned list is its records;
/// `InvalidJson` reports exactly the texts the parse wrapper rejects,
/// `InvalidRecord` exactly the well-formed documents of the wrong shape.
/// `DNSServer::new` gives the table built from the records its exact
/// meaning.
pub fn parse_dns_config(contents: &str) -> (r: Result<Vec<(String, String)>, DnsError>)
    ensures
        r is Ok <==> (spec_parses_json(contents@) && spec_records_of(contents@) is Some),
        (r matches Ok(v) ==> Some(records_view(v@)) == spec_records_of(contents@)),
        (r matches Err(e) ==> (e == DnsError::InvalidJson <==> !spec_parses_json(contents@))),
        (r matches Err(e) ==> (e == DnsError::InvalidRecord <==> (spec_parses_json(contents@)
            && spec_records_of(contents@) is None))),
{
    match extract_table_records(contents) {
        Some(records) => Ok(records),
        None => match parse_json(contents) {
            Ok(_) => Err(DnsError::InvalidRecord),
            Err(_) => Err(DnsError::InvalidJson),
        },
    }
}

/// An ASCII whitespace character, as the trim of the system resolver's
/// output understands it.
pub open spec fn is_ascii_ws(c: char) -> bool {
    c == ' ' || c == '\t' || c == '\n' || c == '\r' || c == '\u{C}'
}

/// `s` with leading and trailing ASCII whitespace removed.
pub open spec fn spec_trimmed(s: Seq<char>) -> Seq<char>
    decreases s.len(),
{
    if s.len() == 0 {
        s
    } else if is_ascii_ws(s[0]) {
        spec_trimmed(s.drop_first())
    } else if is_ascii_ws(s.last()) {
        spec_trimmed(s.drop_last())
    } else {
        s
    }
}

/// The trimmed text is the subrange between the first and last characters
/// that are not whitespace.
proof fn lemma_trimmed_subrange(s: Seq<char>, a: int, b: int)
    requires
        0 <= a <= b <= s.len(),
        forall|i: int| 0 <= i < a ==> is_ascii_ws(#[trigger] s[i]),
        forall|i: int| b <= i < s.len() ==> is_ascii_ws(#[trigger] s[i]),
        a < s.len() ==> !is_ascii_ws(s[a]),
        a < b ==> !is_ascii_ws(s[b - 1]),
    ensures
        spec_trimmed(s) == s.subrange(a, b),
    decreases s.len(),
{
    if s.len() == 0 {
        assert(s.subrange(a, b) =~= s);
    } else if is_ascii_ws(s[0]) {
        // The first character is whitespace, so a >= 1.
        let t = s.drop_first();
        assert(t =~= s.subrange(1, s.len() as int));
        lemma_trimmed_subrange(t, a - 1, b - 1);
        assert(s.subrange(a, b) =~= t.subrange(a - 1, b - 1));
    } else if is_ascii_ws(s.last()) {
        // The last character is whitespace, so b <= len - 1.
        let t = s.drop_last();
        assert(b < s.len());
        lemma_trimmed_subrange(t, a, b);
        assert(s.subrange(a, b) =~= t.subrange(a, b));
    } else {
        // Neither end is whitespace: nothing is trimmed, and the loop
        // bounds must cover the whole text.
        assert(a == 0);
        assert(b == s.len());
        assert(s.subrange(a, b) =~= s);
    }
}

/// Normalizes the system resolver's raw output into its answer: the output
/// with surrounding ASCII whitespace trimmed, or `None` when nothing but
/// whitespace came back — empty output is no IP, hence a failure of the
/// system tier.
pub fn normalize_system_output(output: &str) -> (r: Option<String>)
    ensures
        r is Some <==> spec_trimmed(output@).len() > 0,
        (r matches Some(ip) ==> ip@ == spec_trimmed(output@)),
{
    let n = output.unicode_len();
    let mut start: usize = 0;
    while start < n && is_ws_char(output.get_char(start))
        invariant
            start <= n,
            n == output@.len(),
            forall|i: int| 0 <= i < start ==> is_ascii_ws(#[trigger] output@[i]),
        decreases n - start,
    {
        start += 1;
    }
    let mut end: usize = n;
    while end > start && is_ws_char(output.get_char(end - 1))
        invariant
            start <= end <= n,
            n == output@.len(),
            forall|i: int| 0 <= i < start ==> is_ascii_ws(#[trigger] output@[i]),
            forall|i: int| end <= i < n ==> is_ascii_ws(#[trigger] output@[i]),
        decreases end,
    {
        end -= 1;
    }
    proof {
        lemma_trimmed_subrange(output@, start as int, end as int);
    }
    if start == end {
        return None;
    }
    let mut trimmed = String::new();
    let mut i: usize = start;
    while i < end
        invariant
            start <= i <= end <= n,
            n == output@.len(),
            trimmed@ == output@.subrange(start as int, i as int),
        decreases end - i,
    {
        trimmed.push(output.get_char(i));
        proof {
            assert(trimmed@ =~= output@.subrange(start as int, i + 1));
        }
        i += 1;
    }
    Some(trimmed)
}

/// Whether a character is ASCII whitespace; agrees with `is_ascii_ws`.
fn is_ws_char(c: char) -> (r: bool)
    ensures
        r == is_ascii_ws(c),
{
    c == ' ' || c == '\t' || c == '\n' || c == '\r' || c == '\u{C}'
}

} // verus!
