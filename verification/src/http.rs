//! The computational side of the HTTP client: host-name normalization,
//! IPv4 literal validation and parsing, and request-text assembly. The
//! socket work around these lives outside the library.

use vstd::prelude::*;
use vstd::string::StrSliceExecFns;
use crate::strutil::str_eq;

verus! {

/// The index of the first `.` in `s`, or a negative value when there is
/// none.
pub open spec fn first_dot(s: Seq<char>) -> int
    decreases s.len(),
{
    if s.len() == 0 {
        -1
    } else if s[0] == '.' {
        0
    } else {
        let r = first_dot(s.drop_first());
        if r < 0 {
            -1
        } else {
            r + 1
        }
    }
}

/// Where `first_dot` points: inside the string, at a dot, with none before.
pub proof fn lemma_first_dot(s: Seq<char>)
    ensures
        first_dot(s) >= 0 ==> first_dot(s) < s.len() && s[first_dot(s)] == '.',
        first_dot(s) < 0 ==> forall|i: int| 0 <= i < s.len() ==> s[i] != '.',
    decreases s.len(),
{
    if s.len() > 0 && s[0] != '.' {
        lemma_first_dot(s.drop_first());
        if first_dot(s) < 0 {
            assert forall|i: int| 0 <= i < s.len() implies s[i] != '.' by {
                if i > 0 {
                    assert(s[i] == s.drop_first()[i - 1]);
                }
            }
        }
    }
}

/// `s` split at every `.`: the separators are dropped, empty pieces are
/// kept, and a string without a dot is one piece.
pub open spec fn split_dots(s: Seq<char>) -> Seq<Seq<char>>
    decreases s.len(),
        via split_dots_decreases
{
    let i = first_dot(s);
    if i < 0 {
        seq![s]
    } else {
        seq![s.take(i)] + split_dots(s.skip(i + 1))
    }
}

#[via_fn]
proof fn split_dots_decreases(s: Seq<char>) {
    lemma_first_dot(s);
}

/// The views of a list of owned strings.
pub open spec fn strs_view(s: Seq<String>) -> Seq<Seq<char>> {
    s.map_values(|x: String| x@)
}

/// Finds the first `.` at or after `from`.
fn find_dot(s: &str, from: usize) -> (r: Option<usize>)
    requires
        from <= s@.len(),
    ensures
        match r {
            Some(i) => from <= i < s@.len() && first_dot(s@.skip(from as int)) == i - from,
            None => first_dot(s@.skip(from as int)) < 0,
        },
    decreases s@.len() - from,
{
    let len = s.unicode_len();
    if from == len {
        proof {
            assert(s@.skip(from as int) =~= Seq::<char>::empty());
        }
        return None;
    }
    if s.get_char(from) == '.' {
        proof {
            assert(s@.skip(from as int)[0] == s@[from as int]);
        }
        return Some(from);
    }
    let r = find_dot(s, from + 1);
    proof {
        assert(s@.skip(from as int).drop_first() =~= s@.skip(from + 1));
        assert(s@.skip(from as int)[0] == s@[from as int]);
    }
    match r {
        Some(i) => Some(i),
        None => None,
    }
}

/// Splits the tail of `s` that starts at `from` at every `.`.
fn split_dots_from(s: &str, from: usize) -> (parts: Vec<String>)
    requires
        from <= s@.len(),
    ensures
        strs_view(parts@) == split_dots(s@.skip(from as int)),
    decreases s@.len() - from,
{
    let len = s.unicode_len();
    match find_dot(s, from) {
        None => {
            let piece = String::from_str(s.substring_char(from, len));
            let mut parts: Vec<String> = Vec::new();
            parts.push(piece);
            proof {
                assert(s@.subrange(from as int, len as int) =~= s@.skip(from as int));
                assert(strs_view(parts@) =~= seq![s@.skip(from as int)]);
            }
            parts
        },
        Some(i) => {
            let piece = String::from_str(s.substring_char(from, i));
            let mut parts = split_dots_from(s, i + 1);
            parts.insert(0, piece);
            proof {
                let tail = s@.skip(from as int);
                assert(s@.subrange(from as int, i as int) =~= tail.take(i - from));
                assert(tail.skip(i - from + 1) =~= s@.skip(i + 1));
                assert(strs_view(parts@) =~= seq![tail.take(i - from)] + split_dots(
                    s@.skip(i + 1),
                ));
            }
            parts
        },
    }
}

/// Splits `s` at every `.`.
pub fn split_on_dots(s: &str) -> (parts: Vec<String>)
    ensures
        strs_view(parts@) == split_dots(s@),
{
    let parts = split_dots_from(s, 0);
    proof {
        assert(s@.skip(0) =~= s@);
    }
    parts
}

/// True of an ASCII decimal digit.
pub open spec fn is_digit(c: char) -> bool {
    48 <= c as u32 && c as u32 <= 57
}

/// All characters are decimal digits.
pub open spec fn all_digits(p: Seq<char>) -> bool {
    forall|i: int| 0 <= i < p.len() ==> is_digit(#[trigger] p[i])
}

/// The number a string of decimal digits denotes.
pub open spec fn dec_val(p: Seq<char>) -> int
    decreases p.len(),
{
    if p.len() == 0 {
        0
    } else {
        dec_val(p.drop_last()) * 10 + ((p[p.len() - 1] as u32) as int - 48)
    }
}

/// A digit string never shrinks in value as it grows to the right.
proof fn lemma_dec_val_grows(p: Seq<char>, i: int)
    requires
        0 <= i <= p.len(),
        all_digits(p),
        dec_val(p.take(i)) > 255,
    ensures
        dec_val(p) > 255,
    decreases p.len() - i,
{
    if i < p.len() {
        assert(p.take(i + 1).drop_last() =~= p.take(i));
        assert(p.take(i + 1)[i] == p[i]);
        assert(is_digit(p[i]));
        assert(dec_val(p.take(i + 1)) == dec_val(p.take(i)) * 10 + ((p[i] as u32) as int - 48));
        lemma_dec_val_grows(p, i + 1);
    } else {
        assert(p.take(i) =~= p);
    }
}

/// The digit run of a piece: everything after one optional leading `+`,
/// which the standard library's unsigned parse admits.
pub open spec fn digits_of(p: Seq<char>) -> Seq<char> {
    if p.len() > 0 && p[0] == '+' {
        p.drop_first()
    } else {
        p
    }
}

/// One piece of a dotted quad, read as the standard library's unsigned
/// parse reads it: one optional leading `+`, then at least one decimal
/// digit, with a value that fits an octet.
pub open spec fn is_u8_part(p: Seq<char>) -> bool {
    let d = digits_of(p);
    d.len() > 0 && all_digits(d) && dec_val(d) <= 255
}

/// Reads a decimal octet, one optional leading `+` allowed; `None` when the
/// digit run is empty, holds a non-digit, or exceeds 255.
#[verifier::loop_isolation(false)]
pub fn parse_u8_part(p: &str) -> (r: Option<u8>)
    ensures
        (r is Some) == is_u8_part(p@),
        r matches Some(v) ==> v as int == dec_val(digits_of(p@)),
{
    let len = p.unicode_len();
    let start: usize = if len > 0 && p.get_char(0) == '+' {
        1
    } else {
        0
    };
    let ghost d = digits_of(p@);
    proof {
        assert(d =~= p@.skip(start as int));
    }
    if start == len {
        return None;
    }
    let mut acc: u32 = 0;
    let mut i: usize = start;
    proof {
        assert(d.take(0) =~= Seq::<char>::empty());
    }
    while i < len
        invariant
            start <= i <= len,
            acc as int == dec_val(d.take(i - start)),
            acc <= 255,
            all_digits(d.take(i - start)),
        decreases len - i,
    {
        let c = p.get_char(i);
        let u = c as u32;
        proof {
            assert(d[i - start] == p@[i as int]);
            assert(d.take(i - start + 1).drop_last() =~= d.take(i - start));
            assert(d.take(i - start + 1)[i - start] == d[i - start]);
        }
        if !(48 <= u && u <= 57) {
            proof {
                assert(!is_digit(d[i - start]));
                assert(!all_digits(d));
            }
            return None;
        }
        let dg = u - 48;
        let next = acc * 10 + dg;
        if next > 255 {
            proof {
                if all_digits(d) {
                    assert(is_digit(d[i - start]));
                    assert(dec_val(d.take(i - start + 1)) == acc * 10 + dg);
                    lemma_dec_val_grows(d, i - start + 1);
                }
            }
            return None;
        }
        acc = next;
        proof {
            assert(all_digits(d.take(i - start + 1)));
        }
        i = i + 1;
    }
    proof {
        assert(d.take(len - start) =~= d);
    }
    Some(acc as u8)
}

/// Whether `s` is a dotted-quad IPv4 literal: four octet pieces, none of
/// which starts with a superfluous `0` (the leading-zero check reads the
/// raw piece, so a `+`-signed piece escapes it).
pub open spec fn spec_is_ipv4(s: Seq<char>) -> bool {
    let parts = split_dots(s);
    &&& parts.len() == 4
    &&& forall|i: int| 0 <= i < 4 ==> is_u8_part(#[trigger] parts[i])
    &&& forall|i: int| 0 <= i < 4 ==> ((#[trigger] parts[i]).len() > 1 ==> parts[i][0] != '0')
}

/// The octets of a dotted-quad IPv4 literal, when all four pieces parse.
pub open spec fn spec_parse_ipv4(s: Seq<char>) -> Option<Seq<int>> {
    let parts = split_dots(s);
    if parts.len() == 4 && (forall|i: int| 0 <= i < 4 ==> is_u8_part(#[trigger] parts[i])) {
        Some(
            seq![
                dec_val(digits_of(parts[0])),
                dec_val(digits_of(parts[1])),
                dec_val(digits_of(parts[2])),
                dec_val(digits_of(parts[3])),
            ],
        )
    } else {
        None
    }
}

/// The first piece of a four-piece split that is not an octet.
pub open spec fn first_bad_octet(parts: Seq<Seq<char>>) -> int {
    if !is_u8_part(parts[0]) {
        0
    } else if !is_u8_part(parts[1]) {
        1
    } else if !is_u8_part(parts[2]) {
        2
    } else {
        3
    }
}

/// The client of the HTTP fetch path. The socket I/O around a request runs
/// outside the library; this value carries the request-side logic.
#[derive(Debug, Clone, PartialEq, Eq)]
pub struct HttpClient {}

impl HttpClient {
    /// Creates a client.
    pub fn new() -> (c: Self)
        ensures
            c == (HttpClient {  }),
    {
        Self {  }
    }

    /// Decides whether `addr` is a dotted-quad IPv4 literal: four octet
    /// pieces, a leading `+` admitted as the unsigned parse admits it, and
    /// no piece longer than one character starting with `0`.
    #[verifier::loop_isolation(false)]
    pub fn is_ipv4_address(addr: &str) -> (r: bool)
        ensures
            r == spec_is_ipv4(addr@),
    {
        let parts = split_on_dots(addr);
        if parts.len() != 4 {
            return false;
        }
        let mut i: usize = 0;
        while i < 4
            invariant
                i <= 4,
                forall|j: int| 0 <= j < i ==> is_u8_part(#[trigger] strs_view(parts@)[j]),
                forall|j: int| 0 <= j < i ==> ((#[trigger] strs_view(parts@)[j]).len() > 1
                    ==> strs_view(parts@)[j][0] != '0'),
            decreases 4 - i,
        {
            let p = &parts[i];
            proof {
                assert(strs_view(parts@)[i as int] == p@);
            }
            if parse_u8_part(p.as_str()).is_none() {
                return false;
            }
            if p.as_str().unicode_len() > 1 {
                if p.as_str().get_char(0) == '0' {
                    return false;
                }
            }
            i = i + 1;
        }
        true
    }

    /// Reads a dotted-quad IPv4 literal into its four octets. Fails exactly
    /// when the literal does not have four pieces or a piece is not an
    /// octet; the message names the first offending piece.
    #[verifier::loop_isolation(false)]
    pub fn parse_ipv4(addr: &str) -> (r: Result<[u8; 4], String>)
        ensures
            match spec_parse_ipv4(addr@) {
                Some(vals) => r matches Ok(b) && b@.len() == 4 && (forall|i: int|
                    0 <= i < 4 ==> (#[trigger] b@[i]) as int == vals[i]),
                None => r is Err,
            },
            split_dots(addr@).len() != 4 ==> (r matches Err(e) && e@
                == "IPv4 address must have 4 parts"@),
            split_dots(addr@).len() == 4 && !(forall|i: int|
                0 <= i < 4 ==> is_u8_part(#[trigger] split_dots(addr@)[i])) ==> (r matches Err(e)
                && e@ == "Invalid number in IPv4 address: "@ + split_dots(addr@)[first_bad_octet(
                split_dots(addr@),
            )]),
    {
        let parts = split_on_dots(addr);
        if parts.len() != 4 {
            return Err(String::from_str("IPv4 address must have 4 parts"));
        }
        proof {
            let parts_v = strs_view(parts@);
            assert(parts_v[0] == parts@[0]@);
            assert(parts_v[1] == parts@[1]@);
            assert(parts_v[2] == parts@[2]@);
            assert(parts_v[3] == parts@[3]@);
        }
        let b0 = match parse_u8_part(parts[0].as_str()) {
            Some(v) => v,
            None => {
                let mut e = String::from_str("Invalid number in IPv4 address: ");
                e.append(parts[0].as_str());
                return Err(e);
            },
        };
        let b1 = match parse_u8_part(parts[1].as_str()) {
            Some(v) => v,
            None => {
                let mut e = String::from_str("Invalid number in IPv4 address: ");
                e.append(parts[1].as_str());
                return Err(e);
            },
        };
        let b2 = match parse_u8_part(parts[2].as_str()) {
            Some(v) => v,
            None => {
                let mut e = String::from_str("Invalid number in IPv4 address: ");
                e.append(parts[2].as_str());
                return Err(e);
            },
        };
        let b3 = match parse_u8_part(parts[3].as_str()) {
            Some(v) => v,
            None => {
                let mut e = String::from_str("Invalid number in IPv4 address: ");
                e.append(parts[3].as_str());
                return Err(e);
            },
        };
        let b: [u8; 4] = [b0, b1, b2, b3];
        Ok(b)
    }

    /// The host actually connected to: `localhost` becomes the loopback
    /// literal, every other host is kept.
    pub fn resolve_host(host: &str) -> (r: String)
        ensures
            host@ == "localhost"@ ==> r@ == "127.0.0.1"@,
            host@ != "localhost"@ ==> r@ == host@,
    {
        if str_eq(host, "localhost") {
            String::from_str("127.0.0.1")
        } else {
            String::from_str(host)
        }
    }

    /// The request text sent for a GET of `path` on `host`: the request
    /// line, the `Host`, `Accept` and `Connection` headers, and the blank
    /// line that ends the header block.
    pub fn build_request(host: &str, path: &str) -> (r: String)
        ensures
            r@ == "GET /"@ + path@ + " HTTP/1.1\nHost: "@ + host@
                + "\nAccept: text/html\nConnection: close\n\n"@,
    {
        let mut request = String::from_str("GET /");
        request.append(path);
        request.append(" HTTP/1.1\nHost: ");
        request.append(host);
        request.append("\nAccept: text/html\nConnection: close\n\n");
        proof {
            assert(request@ =~= "GET /"@ + path@ + " HTTP/1.1\nHost: "@ + host@
                + "\nAccept: text/html\nConnection: close\n\n"@);
        }
        request
    }
}

} // verus!
