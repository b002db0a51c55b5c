//! Copying files with rsync: its configuration, and reading the progress
//! rsync reports, line by line, into how far each file has come.
use vstd::prelude::*;
use crate::text::{decimal, push_char, to_owned_string};

verus! {

/// How rsync is run: the command.
#[derive(Debug)]
pub struct RsyncConfig {
    rsync_cmd: String,
}

impl RsyncConfig {
    /// The default: `/bin/rsync`.
    pub fn new() -> (c: RsyncConfig)
        ensures
            c.rsync_cmd_v() == "/bin/rsync"@,
    {
        RsyncConfig { rsync_cmd: to_owned_string("/bin/rsync") }
    }

    /// The configuration running `rsync_cmd`.
    pub fn with_cmd(rsync_cmd: String) -> (c: RsyncConfig)
        ensures
            c.rsync_cmd_v() == rsync_cmd@,
    {
        RsyncConfig { rsync_cmd }
    }

    /// The command, as a value.
    pub closed spec fn rsync_cmd_v(&self) -> Seq<char> {
        self.rsync_cmd@
    }

    /// The command.
    pub fn rsync_cmd(&self) -> (s: &str)
        ensures
            s@ == self.rsync_cmd_v(),
    {
        self.rsync_cmd.as_str()
    }
}

/// How far a file has come: its name, the bytes copied, and whether it is done.
#[derive(Debug)]
pub struct ProgressInfo {
    pub file_name: String,
    pub loaded_bytes: u64,
    pub is_completed: bool,
}

impl ProgressInfo {
    /// The progress of `file_name`.
    pub fn new(file_name: String, loaded_bytes: u64, is_completed: bool) -> (p: ProgressInfo)
        ensures
            p.file_name == file_name,
            p.loaded_bytes == loaded_bytes,
            p.is_completed == is_completed,
    {
        ProgressInfo { file_name, loaded_bytes, is_completed }
    }
}

/// How far a file has come, as mathematics sees it.
pub struct ProgressV {
    pub file_name: Seq<char>,
    pub loaded_bytes: u64,
    pub is_completed: bool,
}

/// Why a line of rsync's output could not be read.
#[derive(Debug, Clone, Copy, PartialEq, Eq, Structural)]
pub enum RsyncParseError {
    /// A progress line has neither 4 nor 6 fields.
    ProgressFields,
    /// A progress line's first field is no byte count.
    ProgressBytes,
    /// A file line has not 2 fields.
    FileFields,
    /// A file line's second field is no size.
    FileSize,
}

/// Whether `c` separates the fields of a progress line (a space) or of a
/// file line (a bracket).
pub open spec fn is_separator(brackets: bool, c: char) -> bool {
    if brackets { c == '[' || c == ']' } else { c == ' ' }
}

/// The fields read so far from `s[0..n]`, and the one being read.
pub open spec fn fields_state(s: Seq<char>, brackets: bool, n: int) -> (Seq<Seq<char>>, Seq<char>)
    decreases n,
{
    if n <= 0 || n > s.len() {
        (Seq::empty(), Seq::empty())
    } else {
        let (done, cur) = fields_state(s, brackets, n - 1);
        if is_separator(brackets, s[n - 1]) {
            (if cur.len() > 0 { done.push(cur) } else { done }, Seq::empty())
        } else {
            (done, cur.push(s[n - 1]))
        }
    }
}

/// The non-empty runs of characters between separators, in order.
pub open spec fn fields_of(s: Seq<char>, brackets: bool) -> Seq<Seq<char>> {
    let (done, cur) = fields_state(s, brackets, s.len() as int);
    if cur.len() > 0 { done.push(cur) } else { done }
}

/// The non-empty runs of characters of `s` between separators.
pub fn split_fields(s: &str, brackets: bool) -> (v: Vec<String>)
    ensures
        Seq::new(v@.len(), |i: int| v@[i]@) == fields_of(s@, brackets),
{
    let n = s.unicode_len();
    let mut done: Vec<String> = Vec::new();
    let mut cur = String::new();
    let mut i: usize = 0;
    while i < n
        invariant
            n == s@.len(),
            i <= n,
            (Seq::new(done@.len(), |k: int| done@[k]@), cur@) == fields_state(s@, brackets, i as int),
        decreases n - i,
    {
        let c = s.get_char(i);
        let sep = if brackets { c == '[' || c == ']' } else { c == ' ' };
        if sep {
            if cur.as_str().unicode_len() > 0 {
                let ghost before = done@;
                done.push(cur);
                assert(Seq::new(done@.len(), |k: int| done@[k]@) =~= Seq::new(before.len(), |k: int| before[k]@).push(
                    done@[before.len() as int]@,
                ));
            }
            cur = String::new();
        } else {
            push_char(&mut cur, c);
        }
        i = i + 1;
    }
    if cur.as_str().unicode_len() > 0 {
        let ghost before = done@;
        done.push(cur);
        assert(Seq::new(done@.len(), |k: int| done@[k]@) =~= Seq::new(before.len(), |k: int| before[k]@).push(
            done@[before.len() as int]@,
        ));
    }
    done
}

/// The value of decimal digits.
pub open spec fn digits_value(s: Seq<char>) -> nat
    decreases s.len(),
{
    if s.len() == 0 {
        0
    } else {
        digits_value(s.drop_last()) * 10 + ((s.last() as u32) - 48) as nat
    }
}

/// Whether every character is a decimal digit.
pub open spec fn all_digits(s: Seq<char>) -> bool {
    forall|i: int| 0 <= i < s.len() ==> '0' <= #[trigger] s[i] <= '9'
}

/// The number a text gives as `u64` reads it: an optional `+` and at least
/// one decimal digit, of a value that fits.
pub open spec fn u64_of(s: Seq<char>) -> Option<u64> {
    let d = if s.len() > 0 && s[0] == '+' { s.drop_first() } else { s };
    if d.len() > 0 && all_digits(d) && digits_value(d) <= u64::MAX {
        Some(digits_value(d) as u64)
    } else {
        None
    }
}

/// `s` without its commas.
pub open spec fn without_commas(s: Seq<char>) -> Seq<char> {
    s.filter(|c: char| c != ',')
}

/// The number `s` gives as `u64` reads it.
pub fn parse_u64(s: &str) -> (r: Option<u64>)
    ensures
        r == u64_of(s@),
{
    let n = s.unicode_len();
    let start: usize = if n > 0 && s.get_char(0) == '+' { 1 } else { 0 };
    let ghost d = if s@.len() > 0 && s@[0] == '+' { s@.drop_first() } else { s@ };
    assert(d =~= s@.skip(start as int));
    if start >= n {
        return None;
    }
    let mut v: u64 = 0;
    let mut i: usize = start;
    while i < n
        invariant
            n == s@.len(),
            start <= i <= n,
            d == s@.skip(start as int),
            d == (if s@.len() > 0 && s@[0] == '+' { s@.drop_first() } else { s@ }),
            v == digits_value(d.take(i - start)),
            all_digits(d.take(i - start)),
        decreases n - i,
    {
        let c = s.get_char(i);
        assert(d.take(i + 1 - start).drop_last() =~= d.take(i - start));
        assert(d.take(i + 1 - start).last() == c);
        if c < '0' || c > '9' {
            proof {
                assert(d[i - start] == c);
            }
            return None;
        }
        let digit: u64 = (c as u32 - 48) as u64;
        if v > 1844674407370955161 || (v == 1844674407370955161 && digit > 5) {
            proof {
                assert(digits_value(d.take(i + 1 - start)) > u64::MAX);
                if all_digits(d) {
                    lemma_digits_value_grows(d, (i + 1 - start) as int);
                }
            }
            return None;
        }
        v = v * 10 + digit;
        i = i + 1;
    }
    assert(d.take(n - start) =~= d);
    Some(v)
}

/// Adding digits never makes the value smaller.
proof fn lemma_digits_value_grows(d: Seq<char>, k: int)
    requires
        0 <= k <= d.len(),
        all_digits(d),
    ensures
        digits_value(d.take(k)) <= digits_value(d),
    decreases d.len() - k,
{
    if k < d.len() {
        lemma_digits_value_grows(d, k + 1);
        assert(d.take(k + 1).drop_last() =~= d.take(k));
    } else {
        assert(d.take(k) =~= d);
    }
}

/// `s` without its commas.
pub fn remove_commas(s: &str) -> (r: String)
    ensures
        r@ == without_commas(s@),
{
    let n = s.unicode_len();
    let mut r = String::new();
    let mut i: usize = 0;
    while i < n
        invariant
            n == s@.len(),
            i <= n,
            r@ == without_commas(s@.take(i as int)),
        decreases n - i,
    {
        let c = s.get_char(i);
        assert(s@.take(i + 1) =~= s@.take(i as int).push(c));
        proof {
            s@.take(i as int).lemma_filter_push(c, |c: char| c != ',');
        }
        if c != ',' {
            push_char(&mut r, c);
        }
        i = i + 1;
    }
    assert(s@.take(n as int) =~= s@);
    r
}

/// Whether a file name is a directory's: it ends with `/` or `/.`.
pub open spec fn is_dir_name(s: Seq<char>) -> bool {
    (s.len() >= 1 && s.last() == '/') || (s.len() >= 2 && s[s.len() - 2] == '/' && s.last() == '.')
}

/// The reading state: the file whose progress is reported, whether it is
/// done, and whether the header line was passed.
pub struct ParserV {
    pub file_name: Seq<char>,
    pub file_completed: bool,
    pub header_done: bool,
}

/// What reading `line` (with its line end) does to the state `st`: the new
/// state and the progress reported, or why the line could not be read. The
/// first line is the header; empty lines are skipped; otherwise the last
/// character is taken off; while a file is not done, a line not starting
/// with `[` is a progress line (4 or 6 fields: the byte count, with commas,
/// first; 6 fields when the file is done); any other line names a file and
/// its size, `[name][size]`, a directory being done at once.
pub open spec fn parse_line(st: ParserV, line: Seq<char>) -> Result<(ParserV, Option<ProgressV>), RsyncParseError> {
    if !st.header_done {
        Ok((ParserV { header_done: true, ..st }, None))
    } else if line == seq!['\n'] || line == seq!['\r'] || line.len() == 0 {
        Ok((st, None))
    } else {
        let l = line.drop_last();
        if !st.file_completed && !(l.len() > 0 && l[0] == '[') {
            let f = fields_of(l, false);
            if f.len() != 4 && f.len() != 6 {
                Err(RsyncParseError::ProgressFields)
            } else {
                match u64_of(without_commas(f[0])) {
                    None => Err(RsyncParseError::ProgressBytes),
                    Some(n) => Ok(
                        (
                            ParserV { file_completed: f.len() == 6, ..st },
                            Some(ProgressV { file_name: st.file_name, loaded_bytes: n, is_completed: f.len() == 6 }),
                        ),
                    ),
                }
            }
        } else {
            let f = fields_of(l, true);
            if f.len() != 2 {
                Err(RsyncParseError::FileFields)
            } else if u64_of(f[1]) is None {
                Err(RsyncParseError::FileSize)
            } else {
                Ok((ParserV { file_name: f[0], file_completed: is_dir_name(f[0]), ..st }, None))
            }
        }
    }
}

/// Reads rsync's progress output line by line.
#[derive(Debug)]
pub struct ProgressParser {
    file_name: String,
    file_completed: bool,
    header_done: bool,
}

impl View for ProgressParser {
    type V = ParserV;

    closed spec fn view(&self) -> ParserV {
        ParserV { file_name: self.file_name@, file_completed: self.file_completed, header_done: self.header_done }
    }
}

impl ProgressParser {
    /// A parser before the header line.
    pub fn new() -> (p: ProgressParser)
        ensures
            p@ == (ParserV { file_name: Seq::empty(), file_completed: true, header_done: false }),
    {
        ProgressParser { file_name: String::new(), file_completed: true, header_done: false }
    }

    /// Reads one line, with its line end (the last line may lack one); the
    /// progress it reports, if any.
    pub fn parse_line(&mut self, line: &str) -> (r: Result<Option<ProgressInfo>, RsyncParseError>)
        requires
            line@.len() > 0 ==> (line@.last() as u32) < 128,
        ensures
            match r {
                Ok(p) => parse_line(old(self)@, line@) matches Ok((st, pv)) && final(self)@ == st && match p {
                    Some(pi) => pv == Some(ProgressV { file_name: pi.file_name@, loaded_bytes: pi.loaded_bytes, is_completed: pi.is_completed }),
                    None => pv is None,
                },
                Err(e) => parse_line(old(self)@, line@) == Err::<(ParserV, Option<ProgressV>), _>(e),
            },
    {
        if !self.header_done {
            self.header_done = true;
            return Ok(None);
        }
        let n = line.unicode_len();
        if n == 0 || (n == 1 && (line.get_char(0) == '\n' || line.get_char(0) == '\r')) {
            proof {
                if n == 1 {
                    if line@[0] == '\n' {
                        assert(line@ =~= seq!['\n']);
                    } else {
                        assert(line@ =~= seq!['\r']);
                    }
                }
            }
            return Ok(None);
        }
        proof {
            assert(line@ != seq!['\n'] && line@ != seq!['\r']) by {
                if line@ == seq!['\n'] || line@ == seq!['\r'] {
                    assert(n == 1);
                }
            }
        }
        let l = crate::model::defs::substring(line, 0, n - 1);
        assert(l@ =~= line@.drop_last());
        let starts_bracket = n - 1 > 0 && l.as_str().get_char(0) == '[';
        if !self.file_completed && !starts_bracket {
            let f = split_fields(l.as_str(), false);
            if f.len() != 4 && f.len() != 6 {
                return Err(RsyncParseError::ProgressFields);
            }
            let digits = remove_commas(f[0].as_str());
            let loaded = match parse_u64(digits.as_str()) {
                Some(v) => v,
                None => return Err(RsyncParseError::ProgressBytes),
            };
            let done = f.len() == 6;
            let info = ProgressInfo::new(self.file_name.clone(), loaded, done);
            self.file_completed = done;
            return Ok(Some(info));
        }
        let f = split_fields(l.as_str(), true);
        if f.len() != 2 {
            return Err(RsyncParseError::FileFields);
        }
        if parse_u64(f[1].as_str()).is_none() {
            return Err(RsyncParseError::FileSize);
        }
        let name = f[0].clone();
        let k = name.as_str().unicode_len();
        let is_dir = (k >= 1 && name.as_str().get_char(k - 1) == '/') || (k >= 2 && name.as_str().get_char(k - 2) == '/'
            && name.as_str().get_char(k - 1) == '.');
        self.file_name = name;
        self.file_completed = is_dir;
        Ok(None)
    }

    /// The file whose progress is reported.
    pub fn file_name(&self) -> (s: &str)
        ensures
            s@ == self@.file_name,
    {
        self.file_name.as_str()
    }
}

/// Where a chunk of input ends a line: whether it holds a line end, and how
/// many bytes to take (through the first line end, else all).
pub open spec fn chunk_use(available: Seq<u8>) -> (bool, int) {
    if exists|i: int| 0 <= i < available.len() && (#[trigger] available[i] == 10 || available[i] == 13) {
        let i = choose|i: int|
            0 <= i < available.len() && (#[trigger] available[i] == 10 || available[i] == 13) && forall|j: int|
                0 <= j < i ==> !(available[j] == 10 || available[j] == 13);
        (true, i + 1)
    } else {
        (false, available.len() as int)
    }
}

/// How much of a chunk of input belongs to the current line: through the
/// first `\n` or `\r`, else all of it.
pub fn take_line_part(available: &[u8]) -> (r: (bool, usize))
    ensures
        (r.0, r.1 as int) == chunk_use(available@),
{
    let mut i: usize = 0;
    while i < available.len()
        invariant
            i <= available@.len(),
            forall|j: int| 0 <= j < i ==> !(available@[j] == 10 || available@[j] == 13),
        decreases available@.len() - i,
    {
        let b = available[i];
        if b == 10 || b == 13 {
            proof {
                let k = choose|k: int|
                    0 <= k < available@.len() && (#[trigger] available@[k] == 10 || available@[k] == 13) && forall|j: int|
                        0 <= j < k ==> !(available@[j] == 10 || available@[j] == 13);
                assert(k == i as int) by {
                    if k > i {
                        assert(available@[i as int] == 10 || available@[i as int] == 13);
                    }
                }
            }
            return (true, i + 1);
        }
        i = i + 1;
    }
    (false, available.len())
}

} // verus!
