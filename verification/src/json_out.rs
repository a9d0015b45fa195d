//! Rendering the output file.
//!
//! The result of a run is a JSON array of enriched records with the
//! fields `from`, `to`, `hash`, `blockNumber`, `input` and `output`.
//! String fields are quoted with `"`, `\` and control characters
//! escaped; the decoded payloads are embedded verbatim (they are held
//! as canonical JSON text) and an absent payload renders as `null`.
//! The spec functions here pin the rendered text character by
//! character.

use vstd::prelude::*;
use crate::records::{DecodedView, RRDecodedTransaction};

verus! {

/// The lowercase hexadecimal digit of value `d`.
pub open spec fn hex_char(d: nat) -> char {
    if d == 0 { '0' } else if d == 1 { '1' } else if d == 2 { '2' } else if d == 3 { '3' }
    else if d == 4 { '4' } else if d == 5 { '5' } else if d == 6 { '6' } else if d == 7 { '7' }
    else if d == 8 { '8' } else if d == 9 { '9' } else if d == 10 { 'a' } else if d == 11 { 'b' }
    else if d == 12 { 'c' } else if d == 13 { 'd' } else if d == 14 { 'e' } else { 'f' }
}

/// The decimal rendering of `n`, most significant digit first.
pub open spec fn dec_spec(n: nat) -> Seq<char>
    decreases n,
{
    if n < 10 {
        seq![hex_char(n)]
    } else {
        dec_spec(n / 10).push(hex_char(n % 10))
    }
}

/// How one character appears inside a JSON string literal.
pub open spec fn escaped_char(c: char) -> Seq<char> {
    if c == '"' {
        seq!['\\', '"']
    } else if c == '\\' {
        seq!['\\', '\\']
    } else if (c as u32) < 32 {
        seq!['\\', 'u', '0', '0', hex_char((c as u32 / 16) as nat), hex_char(
            (c as u32 % 16) as nat,
        )]
    } else {
        seq![c]
    }
}

/// The body of a JSON string literal holding the characters of `s`.
pub open spec fn escape_spec(s: Seq<char>) -> Seq<char>
    decreases s.len(),
{
    if s.len() == 0 {
        Seq::empty()
    } else {
        escape_spec(s.drop_last()) + escaped_char(s.last())
    }
}

/// The JSON string literal holding the characters of `s`.
pub open spec fn quoted_spec(s: Seq<char>) -> Seq<char> {
    seq!['"'] + escape_spec(s) + seq!['"']
}

/// A decoded payload: its canonical text, or `null` when absent.
pub open spec fn payload_spec(o: Option<Seq<char>>) -> Seq<char> {
    match o {
        None => "null"@,
        Some(t) => t,
    }
}

/// The JSON object of one enriched record.
pub open spec fn record_spec(t: DecodedView) -> Seq<char> {
    "{\"from\":"@ + quoted_spec(t.from) + ",\"to\":"@ + quoted_spec(t.to) + ",\"hash\":"@
        + quoted_spec(t.hash) + ",\"blockNumber\":"@ + dec_spec(t.block_number as nat)
        + ",\"input\":"@ + payload_spec(t.input) + ",\"output\":"@ + payload_spec(t.output)
        + "}"@
}

/// The comma-separated renderings of the records of `s`.
pub open spec fn items_spec(s: Seq<DecodedView>) -> Seq<char>
    decreases s.len(),
{
    if s.len() == 0 {
        Seq::empty()
    } else if s.len() == 1 {
        record_spec(s[0])
    } else {
        items_spec(s.drop_last()) + ","@ + record_spec(s.last())
    }
}

/// The JSON array of the records of `s`.
pub open spec fn array_spec(s: Seq<DecodedView>) -> Seq<char> {
    "["@ + items_spec(s) + "]"@
}

/// Appending one character escapes independently of what came before.
proof fn lemma_escape_push(p: Seq<char>, c: char)
    ensures
        escape_spec(p.push(c)) == escape_spec(p) + escaped_char(c),
{
    assert(p.push(c).drop_last() =~= p);
    assert(p.push(c).last() == c);
}

/// The one-character string of the hexadecimal digit `d`.
fn hex_str(d: u32) -> (r: &'static str)
    requires
        d < 16,
    ensures
        r@ == seq![hex_char(d as nat)],
{
    proof {
        reveal_strlit("0");
        reveal_strlit("1");
        reveal_strlit("2");
        reveal_strlit("3");
        reveal_strlit("4");
        reveal_strlit("5");
        reveal_strlit("6");
        reveal_strlit("7");
        reveal_strlit("8");
        reveal_strlit("9");
        reveal_strlit("a");
        reveal_strlit("b");
        reveal_strlit("c");
        reveal_strlit("d");
        reveal_strlit("e");
        reveal_strlit("f");
    }
    if d == 0 { "0" } else if d == 1 { "1" } else if d == 2 { "2" } else if d == 3 { "3" }
    else if d == 4 { "4" } else if d == 5 { "5" } else if d == 6 { "6" } else if d == 7 { "7" }
    else if d == 8 { "8" } else if d == 9 { "9" } else if d == 10 { "a" } else if d == 11 { "b" }
    else if d == 12 { "c" } else if d == 13 { "d" } else if d == 14 { "e" } else { "f" }
}

/// Decimal rendering of a block number.
pub fn u64_to_string(n: u64) -> (r: String)
    ensures
        r@ == dec_spec(n as nat),
    decreases n,
{
    if n < 10 {
        String::from_str(hex_str(n as u32))
    } else {
        let r = u64_to_string(n / 10).concat(hex_str((n % 10) as u32));
        proof {
            assert(r@ =~= dec_spec((n / 10) as nat).push(hex_char((n % 10) as nat)));
        }
        r
    }
}

/// Append the escaped characters of `s` to `out`.
fn append_escaped(out: &mut String, s: &str)
    ensures
        final(out)@ == old(out)@ + escape_spec(s@),
{
    let n: usize = s.unicode_len();
    let mut i: usize = 0;
    proof {
        assert(s@.take(0) =~= Seq::<char>::empty());
        assert(old(out)@ + escape_spec(s@.take(0)) =~= old(out)@);
    }
    while i < n
        invariant
            n == s@.len(),
            i <= n,
            out@ == old(out)@ + escape_spec(s@.take(i as int)),
        decreases n - i,
    {
        let c: char = s.get_char(i);
        proof {
            assert(s@.take(i as int).push(s@[i as int]) =~= s@.take(i as int + 1));
            lemma_escape_push(s@.take(i as int), c);
        }
        let u: u32 = c as u32;
        if c == '"' {
            out.append("\\\"");
            proof {
                reveal_strlit("\\\"");
                assert("\\\""@ =~= escaped_char(c));
            }
        } else if c == '\\' {
            out.append("\\\\");
            proof {
                reveal_strlit("\\\\");
                assert("\\\\"@ =~= escaped_char(c));
            }
        } else if u < 32 {
            out.append("\\u00");
            out.append(hex_str(u / 16));
            out.append(hex_str(u % 16));
            proof {
                reveal_strlit("\\u00");
                assert("\\u00"@ + seq![hex_char((u / 16) as nat)] + seq![
                    hex_char((u % 16) as nat),
                ] =~= escaped_char(c));
            }
        } else {
            let piece: &str = s.substring_char(i, i + 1);
            out.append(piece);
            proof {
                assert(piece@ =~= escaped_char(c));
            }
        }
        proof {
            assert(out@ =~= old(out)@ + escape_spec(s@.take(i as int + 1)));
        }
        i = i + 1;
    }
    proof {
        assert(s@.take(n as int) =~= s@);
    }
}

/// Append the JSON string literal of `s` to `out`.
fn append_quoted(out: &mut String, s: &str)
    ensures
        final(out)@ == old(out)@ + quoted_spec(s@),
{
    out.append("\"");
    append_escaped(out, s);
    out.append("\"");
    proof {
        reveal_strlit("\"");
        assert("\""@ =~= seq!['"']);
        assert(out@ =~= old(out)@ + quoted_spec(s@));
    }
}

/// Append a decoded payload, or `null` when it is absent.
fn append_payload(out: &mut String, o: &Option<String>)
    ensures
        final(out)@ == old(out)@ + payload_spec(o.deep_view()),
{
    match o {
        None => {
            out.append("null");
        },
        Some(t) => {
            out.append(t.as_str());
        },
    }
}

/// Render one enriched record as its JSON object.
pub fn render_record(t: &RRDecodedTransaction) -> (r: String)
    ensures
        r@ == record_spec(t@),
{
    let mut out: String = String::new();
    out.append("{\"from\":");
    append_quoted(&mut out, t.from.as_str());
    out.append(",\"to\":");
    append_quoted(&mut out, t.to.as_str());
    out.append(",\"hash\":");
    append_quoted(&mut out, t.hash.as_str());
    out.append(",\"blockNumber\":");
    let num: String = u64_to_string(t.block_number);
    out.append(num.as_str());
    out.append(",\"input\":");
    append_payload(&mut out, &t.input);
    out.append(",\"output\":");
    append_payload(&mut out, &t.output);
    out.append("}");
    proof {
        assert(out@ =~= record_spec(t@));
    }
    out
}

/// Render the full ordered sequence of records as a JSON array.
pub fn render_output(records: &Vec<RRDecodedTransaction>) -> (r: String)
    ensures
        r@ == array_spec(records.deep_view()),
{
    let n: usize = records.len();
    let mut out: String = String::new();
    out.append("[");
    proof {
        assert(records.deep_view().take(0) =~= Seq::<DecodedView>::empty());
        assert(out@ =~= "["@ + items_spec(records.deep_view().take(0)));
    }
    let mut i: usize = 0;
    while i < n
        invariant
            n == records@.len(),
            i <= n,
            out@ == "["@ + items_spec(records.deep_view().take(i as int)),
        decreases n - i,
    {
        let ghost p = records.deep_view().take(i as int);
        proof {
            assert(p.push(records.deep_view()[i as int]) =~= records.deep_view().take(
                i as int + 1,
            ));
            assert(records.deep_view().take(i as int + 1).drop_last() =~= p);
        }
        if i > 0 {
            out.append(",");
            proof {
                reveal_strlit(",");
            }
        }
        let piece: String = render_record(&records[i]);
        out.append(piece.as_str());
        proof {
            assert(out@ =~= "["@ + items_spec(records.deep_view().take(i as int + 1)));
        }
        i = i + 1;
    }
    out.append("]");
    proof {
        assert(records.deep_view().take(n as int) =~= records.deep_view());
        assert(out@ =~= array_spec(records.deep_view()));
    }
    out
}

/// The name of the output file: the normalized address plus `.json`.
pub fn output_file_name(address: &str) -> (r: String)
    ensures
        r@ == address@ + ".json"@,
{
    String::from_str(address).concat(".json")
}

} // verus!
