//! Small helpers for command-line programs: ANSI escape decoration for
//! terminal text, a logging-configuration value type, and a line reader
//! that works over any line-oriented input source.
use vstd::prelude::*;

pub mod colors;
pub mod config;

verus! {

/// Whitespace as full trimming understands it: the Unicode `White_Space` set.
pub open spec fn is_space_char(c: char) -> bool {
    c == ' ' || c == '\t' || c == '\n' || c == '\x0b' || c == '\x0c' || c == '\r'
        || c == '\u{85}' || c == '\u{a0}' || c == '\u{1680}' || c == '\u{2000}'
        || c == '\u{2001}' || c == '\u{2002}' || c == '\u{2003}' || c == '\u{2004}'
        || c == '\u{2005}' || c == '\u{2006}' || c == '\u{2007}' || c == '\u{2008}'
        || c == '\u{2009}' || c == '\u{200a}' || c == '\u{2028}' || c == '\u{2029}'
        || c == '\u{202f}' || c == '\u{205f}' || c == '\u{3000}'
}

/// Whether `c` counts as whitespace when trimming a line.
pub fn is_space(c: char) -> (r: bool)
    ensures
        r == is_space_char(c),
{
    c == ' ' || c == '\t' || c == '\n' || c == '\x0b' || c == '\x0c' || c == '\r'
        || c == '\u{85}' || c == '\u{a0}' || c == '\u{1680}' || c == '\u{2000}'
        || c == '\u{2001}' || c == '\u{2002}' || c == '\u{2003}' || c == '\u{2004}'
        || c == '\u{2005}' || c == '\u{2006}' || c == '\u{2007}' || c == '\u{2008}'
        || c == '\u{2009}' || c == '\u{200a}' || c == '\u{2028}' || c == '\u{2029}'
        || c == '\u{202f}' || c == '\u{205f}' || c == '\u{3000}'
}

/// The text with its leading whitespace removed.
pub open spec fn trim_front(s: Seq<char>) -> Seq<char>
    decreases s.len(),
{
    if s.len() == 0 {
        s
    } else if is_space_char(s[0]) {
        trim_front(s.drop_first())
    } else {
        s
    }
}

/// The text with its trailing whitespace removed.
pub open spec fn trim_back(s: Seq<char>) -> Seq<char>
    decreases s.len(),
{
    if s.len() == 0 {
        s
    } else if is_space_char(s.last()) {
        trim_back(s.drop_last())
    } else {
        s
    }
}

/// A full trim of both ends.
pub open spec fn trimmed(s: Seq<char>) -> Seq<char> {
    trim_back(trim_front(s))
}

/// Trimming the front keeps the suffix that starts at the first
/// non-whitespace character.
proof fn lemma_trim_front_chars(s: Seq<char>, k: int)
    requires
        0 <= k <= s.len(),
        forall|j: int| 0 <= j < k ==> is_space_char(s[j]),
        k == s.len() || !is_space_char(s[k]),
    ensures
        trim_front(s) == s.subrange(k, s.len() as int),
    decreases k,
{
    if k == 0 {
        assert(s.subrange(0, s.len() as int) =~= s);
    } else {
        let s1 = s.drop_first();
        assert forall|j: int| 0 <= j < k - 1 implies is_space_char(s1[j]) by {
            assert(s1[j] == s[j + 1]);
        }
        if k - 1 < s1.len() {
            assert(s1[k - 1] == s[k]);
        }
        lemma_trim_front_chars(s1, k - 1);
        assert(s1.subrange(k - 1, s1.len() as int) =~= s.subrange(k, s.len() as int));
    }
}

/// Trimming the back keeps the prefix that ends at the last
/// non-whitespace character.
proof fn lemma_trim_back_chars(s: Seq<char>, m: int)
    requires
        0 <= m <= s.len(),
        forall|j: int| m <= j < s.len() ==> is_space_char(s[j]),
        m == 0 || !is_space_char(s[m - 1]),
    ensures
        trim_back(s) == s.subrange(0, m),
    decreases s.len(),
{
    if m == s.len() {
        assert(s.subrange(0, s.len() as int) =~= s);
    } else {
        let s1 = s.drop_last();
        assert(is_space_char(s.last()));
        assert forall|j: int| m <= j < s1.len() implies is_space_char(s1[j]) by {
            assert(s1[j] == s[j]);
        }
        if m > 0 {
            assert(s1[m - 1] == s[m - 1]);
        }
        lemma_trim_back_chars(s1, m);
        assert(s1.subrange(0, m) =~= s.subrange(0, m));
    }
}

/// Returns `s` with all leading and trailing whitespace removed.
pub fn trim_str(s: &str) -> (r: String)
    ensures
        r@ == trimmed(s@),
{
    let n = s.unicode_len();
    let mut start: usize = 0;
    while start < n && is_space(s.get_char(start))
        invariant
            start <= n == s@.len(),
            forall|j: int| 0 <= j < start ==> is_space_char(s@[j]),
        decreases n - start,
    {
        start += 1;
    }
    let mut end: usize = n;
    while end > start && is_space(s.get_char(end - 1))
        invariant
            start <= end <= n == s@.len(),
            forall|j: int| end <= j < n ==> is_space_char(s@[j]),
        decreases end,
    {
        end -= 1;
    }
    let t = s.substring_char(start, end);
    proof {
        lemma_trim_front_chars(s@, start as int);
        let mid = s@.subrange(start as int, s@.len() as int);
        let m = end - start;
        assert forall|j: int| m <= j < mid.len() implies is_space_char(mid[j]) by {
            assert(mid[j] == s@[start + j]);
        }
        if m > 0 {
            assert(mid[m - 1] == s@[end - 1]);
        }
        lemma_trim_back_chars(mid, m as int);
        assert(mid.subrange(0, m as int) =~= s@.subrange(start as int, end as int));
    }
    String::from_str(t)
}

/// The I/O failure a line source can report. Callers of this library treat
/// it as fatal; nothing here retries or recovers.
#[derive(Debug)]
pub struct LineError {}

/// A buffered, line-oriented input source: one call reads the next line,
/// terminator included, or reports an I/O failure.
pub trait LineSource {
    /// What the next read yields: the next line, or `None` for a source
    /// whose read fails.
    spec fn next_line(&self) -> Option<Seq<char>>;

    /// Reads one line, including its terminator when one is present.
    /// At end of input the line is empty; that is not a failure.
    fn read_one_line(&mut self) -> (r: Result<String, LineError>)
        ensures
            match old(self).next_line() {
                Some(l) => r matches Ok(line) && line@ == l,
                None => r is Err,
            },
    ;
}

/// Where the first line of `s` ends: one past the first newline, or the
/// end of `s` when it holds none.
pub open spec fn first_line_end(s: Seq<char>) -> int
    decreases s.len(),
{
    if s.len() == 0 {
        0
    } else if s[0] == '\n' {
        1
    } else {
        1 + first_line_end(s.drop_first())
    }
}

/// The first line of `s`, its newline included when present.
pub open spec fn first_line(s: Seq<char>) -> Seq<char> {
    s.subrange(0, first_line_end(s))
}

/// The end of the first line lies at the first newline, or at the end of
/// the text when it holds none.
proof fn lemma_first_line_end_at(s: Seq<char>, i: int)
    requires
        0 <= i <= s.len(),
        forall|j: int| 0 <= j < i ==> s[j] != '\n',
        i == s.len() || s[i] == '\n',
    ensures
        first_line_end(s) == if i == s.len() { i } else { i + 1 },
    decreases i,
{
    if i > 0 {
        let s1 = s.drop_first();
        assert forall|j: int| 0 <= j < i - 1 implies s1[j] != '\n' by {
            assert(s1[j] == s[j + 1]);
        }
        if i - 1 < s1.len() {
            assert(s1[i - 1] == s[i]);
        }
        lemma_first_line_end_at(s1, i - 1);
    }
}

/// An in-memory input source over a fixed string, for deterministic reads
/// in place of live console input. Each read consumes one line.
pub struct MemorySource {
    /// What remains to be read.
    pub data: String,
}

impl MemorySource {
    /// Builds a source that will read the lines of `s`.
    pub fn new(s: &str) -> (r: MemorySource)
        ensures
            r.data@ == s@,
    {
        MemorySource { data: String::from_str(s) }
    }
}

impl LineSource for MemorySource {
    /// The next read yields the first line of the remaining data; an
    /// in-memory read never fails.
    open spec fn next_line(&self) -> Option<Seq<char>> {
        Some(first_line(self.data@))
    }

    fn read_one_line(&mut self) -> (r: Result<String, LineError>)
        ensures
            final(self).data@ == old(self).data@.subrange(
                first_line_end(old(self).data@),
                old(self).data@.len() as int,
            ),
    {
        let n = self.data.as_str().unicode_len();
        let mut i: usize = 0;
        while i < n && self.data.as_str().get_char(i) != '\n'
            invariant
                i <= n == self.data@.len(),
                *self == *old(self),
                forall|j: int| 0 <= j < i ==> self.data@[j] != '\n',
            decreases n - i,
        {
            i += 1;
        }
        proof {
            lemma_first_line_end_at(self.data@, i as int);
        }
        let line: String;
        let rest: String;
        if i < n {
            line = String::from_str(self.data.as_str().substring_char(0, i + 1));
            rest = String::from_str(self.data.as_str().substring_char(i + 1, n));
        } else {
            line = String::from_str(self.data.as_str());
            rest = String::new();
        }
        proof {
            assert(line@ =~= first_line(old(self).data@));
            assert(rest@ =~= old(self).data@.subrange(
                first_line_end(old(self).data@),
                old(self).data@.len() as int,
            ));
        }
        self.data = rest;
        Ok(line)
    }
}

/// An input source whose read always reports an I/O failure, standing in
/// for an environment where console input is unavailable.
pub struct FailingSource {}

impl LineSource for FailingSource {
    /// A failing source never yields a line.
    open spec fn next_line(&self) -> Option<Seq<char>> {
        None
    }

    fn read_one_line(&mut self) -> (r: Result<String, LineError>) {
        Err(LineError {})
    }
}

/// Reads one line from `reader` and returns it with surrounding whitespace
/// trimmed. A source already at end of input yields the empty string; a
/// source whose read fails yields the error, which callers treat as fatal.
pub fn _read_stdin<R: LineSource>(reader: &mut R) -> (r: Result<String, LineError>)
    ensures
        match old(reader).next_line() {
            Some(l) => r matches Ok(line) && line@ == trimmed(l),
            None => r is Err,
        },
{
    match reader.read_one_line() {
        Ok(line) => Ok(trim_str(line.as_str())),
        Err(e) => Err(e),
    }
}

} // verus!
