//! Candidates: unverified `ip:port` pairs, and the parsers that produce them.

use vstd::prelude::*;
use crate::text::{chars_of, find_char, first_index, lemma_first_index, string_from};

verus! {

/// An unverified endpoint. Every candidate that this crate reads, from a list
/// or from a single text, has a non-empty address and a non-empty port;
/// neither is checked for being a real address or port number.
#[derive(Debug)]
pub struct Proxy {
    pub ip: String,
    pub port: String,
}

/// What a [`Proxy`] holds, as sequences of characters.
pub struct ProxyView {
    pub ip: Seq<char>,
    pub port: Seq<char>,
}

impl View for Proxy {
    type V = ProxyView;

    open spec fn view(&self) -> ProxyView {
        ProxyView { ip: self.ip@, port: self.port@ }
    }
}

impl Clone for Proxy {
    fn clone(&self) -> (copy: Self)
        ensures
            copy@ == self@,
    {
        Proxy { ip: self.ip.clone(), port: self.port.clone() }
    }
}

impl ProxyView {
    /// Both parts are present.
    pub open spec fn is_complete(self) -> bool {
        self.ip.len() > 0 && self.port.len() > 0
    }
}

/// The views of a sequence of candidates, in the same order.
pub open spec fn proxy_views(candidates: Seq<Proxy>) -> Seq<ProxyView> {
    candidates.map_values(|p: Proxy| p@)
}

/// Why a text is no candidate of the form `ip:port`.
#[derive(Debug, Clone, Copy, PartialEq, Eq, Structural)]
pub enum FormatError {
    /// The text holds no `:`.
    MissingSeparator,
    /// Nothing stands before the first `:`.
    EmptyAddress,
    /// An address stands before the first `:`, and nothing after it.
    EmptyPort,
}

/// Splits `s` at its first `:`. What stands before it is the address, all
/// that follows (further colons included) is the port.
pub open spec fn split_at_colon(s: Seq<char>) -> Option<ProxyView> {
    let k = first_index(s, ':');
    if k < s.len() {
        Some(ProxyView { ip: s.take(k), port: s.skip(k + 1) })
    } else {
        None
    }
}

/// The candidate that one line of a list stands for: the line split at its
/// first `:`, kept only where both parts are non-empty.
pub open spec fn candidate_of_line(line: Seq<char>) -> Option<ProxyView> {
    match split_at_colon(line) {
        Some(p) => if p.is_complete() { Some(p) } else { None },
        None => None,
    }
}

/// The candidate that a single text stands for, or why it stands for none.
/// The text is split at its first `:`, and both parts have to be non-empty.
pub open spec fn candidate_of_text(text: Seq<char>) -> Result<ProxyView, FormatError> {
    match split_at_colon(text) {
        None => Err(FormatError::MissingSeparator),
        Some(p) => if p.ip.len() == 0 {
            Err(FormatError::EmptyAddress)
        } else if p.port.len() == 0 {
            Err(FormatError::EmptyPort)
        } else {
            Ok(p)
        },
    }
}

/// `line` without the carriage return that closes it, if there is one.
pub open spec fn strip_cr(line: Seq<char>) -> Seq<char> {
    if line.len() > 0 && line.last() == '\r' {
        line.drop_last()
    } else {
        line
    }
}

/// The lines of a text. A line ends at `\n`, or at `\r\n`; the last line needs
/// no terminator, and a text that ends in a terminator has no empty line
/// after it.
pub open spec fn lines_of(s: Seq<char>) -> Seq<Seq<char>>
    decreases s.len(),
{
    if s.len() == 0 {
        Seq::empty()
    } else {
        let k = first_index(s, '\n');
        if 0 <= k < s.len() {
            seq![strip_cr(s.take(k))] + lines_of(s.skip(k + 1))
        } else {
            seq![s]
        }
    }
}

/// The candidates among `lines`, in order; lines that are no candidate are
/// passed over.
pub open spec fn candidates_of_lines(lines: Seq<Seq<char>>) -> Seq<ProxyView> {
    lines.filter_map(|line: Seq<char>| candidate_of_line(line))
}

/// The candidates that a list body holds: one per well-formed line, in the
/// order of the lines, duplicates kept.
pub open spec fn candidates_in(body: Seq<char>) -> Seq<ProxyView> {
    candidates_of_lines(lines_of(body))
}

/// Every candidate of a list has an address and a port, and its address holds
/// no `:`.
pub proof fn lemma_listed_candidates_are_complete(lines: Seq<Seq<char>>)
    ensures
        forall|i: int|
            0 <= i < candidates_of_lines(lines).len() ==> {
                &&& (#[trigger] candidates_of_lines(lines)[i]).is_complete()
                &&& !candidates_of_lines(lines)[i].ip.contains(':')
            },
    decreases lines.len(),
{
    if lines.len() > 0 {
        let line = lines.last();
        lemma_listed_candidates_are_complete(lines.drop_last());
        lemma_candidates_push(lines.drop_last(), line);
        lemma_first_index(line, ':');
    }
}

/// A text with a `:` is its address, a `:` and its port, put together again.
pub proof fn lemma_split_restores_text(s: Seq<char>)
    requires
        split_at_colon(s) is Some,
    ensures
        split_at_colon(s)->Some_0.ip + seq![':'] + split_at_colon(s)->Some_0.port == s,
{
    lemma_first_index(s, ':');
}

proof fn lemma_candidates_push(lines: Seq<Seq<char>>, line: Seq<char>)
    ensures
        candidates_of_lines(lines.push(line)) == match candidate_of_line(line) {
            Some(p) => candidates_of_lines(lines).push(p),
            None => candidates_of_lines(lines),
        },
{
    assert(lines.push(line).drop_last() == lines);
}

/// Splits `chars[from..to]` at its first `:`.
fn split_range(chars: &Vec<char>, from: usize, to: usize) -> (r: Option<Proxy>)
    requires
        from <= to <= chars.len(),
    ensures
        match r {
            Some(p) => split_at_colon(chars@.subrange(from as int, to as int)) == Some(p@),
            None => split_at_colon(chars@.subrange(from as int, to as int)) is None,
        },
{
    let colon = find_char(chars, from, to, ':');
    if colon < to {
        let ip = string_from(chars, from, colon);
        let port = string_from(chars, colon + 1, to);
        proof {
            let s = chars@.subrange(from as int, to as int);
            assert(s.take(colon - from) == chars@.subrange(from as int, colon as int));
            assert(s.skip(colon - from + 1) == chars@.subrange(colon + 1, to as int));
        }
        Some(Proxy { ip, port })
    } else {
        None
    }
}

/// Reads one user-supplied candidate of the form `ip:port`.
///
/// The text is split at its first `:`. It is a candidate where both parts
/// are non-empty, as for a line of a list; otherwise the error says what is
/// missing: the separator, the address, or the port.
pub fn parse_candidate(text: &str) -> (r: Result<Proxy, FormatError>)
    ensures
        r is Ok <==> candidate_of_line(text@) is Some,
        r matches Ok(p) ==> {
            &&& candidate_of_text(text@) == Ok::<ProxyView, FormatError>(p@)
            &&& split_at_colon(text@) == Some(p@)
            &&& p@.is_complete()
            &&& p@.ip + seq![':'] + p@.port == text@
        },
        r matches Err(e) ==> candidate_of_text(text@) == Err::<ProxyView, FormatError>(e),
        r == Err::<Proxy, FormatError>(FormatError::MissingSeparator) <==> !text@.contains(':'),
{
    proof {
        lemma_first_index(text@, ':');
        if split_at_colon(text@) is Some {
            lemma_split_restores_text(text@);
        }
    }
    let chars = chars_of(text);
    assert(chars@.subrange(0, chars@.len() as int) == chars@);
    match split_range(&chars, 0, chars.len()) {
        None => Err(FormatError::MissingSeparator),
        Some(p) => if p.ip.as_str().is_empty() {
            Err(FormatError::EmptyAddress)
        } else if p.port.as_str().is_empty() {
            Err(FormatError::EmptyPort)
        } else {
            Ok(p)
        },
    }
}

/// Reads a candidate list: a plain text with one `ip:port` per line.
///
/// A line without `:`, or with nothing before or after its first `:`, is
/// dropped. The others come out in the order of the text, with their two
/// parts as they stand in it.
pub fn parse_proxies(body: &str) -> (candidates: Vec<Proxy>)
    ensures
        proxy_views(candidates@) == candidates_in(body@),
        forall|i: int| 0 <= i < candidates@.len() ==> (#[trigger] candidates@[i])@.is_complete(),
{
    let chars = chars_of(body);
    let n = chars.len();
    let mut candidates: Vec<Proxy> = Vec::new();
    let mut pos: usize = 0;
    let ghost mut done: Seq<Seq<char>> = Seq::empty();
    assert(body@.skip(0) == body@);
    while pos < n
        invariant
            n == chars.len(),
            chars@ == body@,
            pos <= n,
            lines_of(body@) == done + lines_of(body@.skip(pos as int)),
            proxy_views(candidates@) == candidates_of_lines(done),
        decreases n - pos,
    {
        let end = find_char(&chars, pos, n, '\n');
        let next: usize = if end < n { end + 1 } else { n };
        let line_end: usize = if end < n && pos < end && chars[end - 1] == '\r' {
            end - 1
        } else {
            end
        };
        let ghost rest = body@.skip(pos as int);
        let ghost line = chars@.subrange(pos as int, line_end as int);
        proof {
            if end < n {
                assert(strip_cr(rest.take(end - pos)) == line);
                assert(rest.skip(end - pos + 1) == body@.skip(next as int));
            }
            lemma_candidates_push(done, line);
        }
        match split_range(&chars, pos, line_end) {
            Some(p) => {
                if !p.ip.as_str().is_empty() && !p.port.as_str().is_empty() {
                    candidates.push(p);
                }
            },
            None => {},
        }
        proof {
            done = done.push(line);
        }
        pos = next;
    }
    proof {
        lemma_listed_candidates_are_complete(lines_of(body@));
        assert forall|i: int| 0 <= i < candidates@.len() implies (#[trigger] candidates@[i])@.is_complete() by {
            assert(proxy_views(candidates@)[i] == candidates@[i]@);
        }
    }
    candidates
}

} // verus!
