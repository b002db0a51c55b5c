//! The log of a command's input, output and status: an append-only byte
//! buffer cut into entries of a kind and a time.
use vstd::prelude::*;
use vstd::string::StringSliceAdditionalSpecFns;
use crate::text::{lossy_utf8, push_char, push_str, push_signed_decimal, signed_decimal, utf8_lossy};

verus! {

/// `std::time::Instant`, the time an entry was logged.
#[verifier::external_type_specification]
#[verifier::external_body]
pub struct ExInstant(std::time::Instant);

/// What an entry records.
#[derive(Debug, Clone, Copy, PartialEq, Eq, Structural, PartialOrd, Ord, Hash)]
pub enum EntryKind {
    Out,
    Stderr,
    In,
    Status,
    Command,
}

impl EntryKind {
    /// The bit of the kind in an entry-kind mask.
    pub fn mask_bit(&self) -> (b: u8)
        ensures
            b == kind_bit(*self),
    {
        match self {
            EntryKind::Out => 0x01,
            EntryKind::Stderr => 0x02,
            EntryKind::In => 0x04,
            EntryKind::Status => 0x08,
            EntryKind::Command => 0x10,
        }
    }

    /// The mark of the kind in the rendered log.
    pub fn mark(&self) -> (c: char)
        ensures
            c == kind_mark(*self),
    {
        match self {
            EntryKind::In => '<',
            EntryKind::Out => '1',
            EntryKind::Stderr => '2',
            EntryKind::Status => '=',
            EntryKind::Command => '$',
        }
    }

    /// The mark of the kind as text.
    pub fn to_string(&self) -> (s: String)
        ensures
            s@ == seq![kind_mark(*self)],
    {
        let mut s = String::new();
        push_char(&mut s, self.mark());
        s
    }
}

/// The bit of a kind in an entry-kind mask.
pub open spec fn kind_bit(k: EntryKind) -> u8 {
    match k {
        EntryKind::Out => 0x01,
        EntryKind::Stderr => 0x02,
        EntryKind::In => 0x04,
        EntryKind::Status => 0x08,
        EntryKind::Command => 0x10,
    }
}

/// The mark of a kind in the rendered log.
pub open spec fn kind_mark(k: EntryKind) -> char {
    match k {
        EntryKind::In => '<',
        EntryKind::Out => '1',
        EntryKind::Stderr => '2',
        EntryKind::Status => '=',
        EntryKind::Command => '$',
    }
}

/// One entry: where its bytes lie in the buffer, its kind and time.
#[derive(Debug, Clone, Copy)]
pub struct Entry {
    offset: usize,
    length: usize,
    kind: EntryKind,
    timestamp: std::time::Instant,
}

/// The log buffer and its entries.
pub struct Output {
    buf: Vec<u8>,
    entries: Vec<Entry>,
}

/// Each entry's bytes follow the previous entry's, and together they fill the buffer.
pub closed spec fn entries_tile(entries: Seq<Entry>, buf_len: int) -> bool {
    &&& (entries.len() == 0 ==> buf_len == 0)
    &&& (entries.len() > 0 ==> entries[0].offset == 0
        && entries.last().offset + entries.last().length == buf_len)
    &&& forall|i: int| 0 <= i < entries.len() - 1 ==>
        #[trigger] entries[i + 1].offset == entries[i].offset + entries[i].length
}

impl Entry {
    /// The kind of the entry.
    pub closed spec fn kind_view(&self) -> EntryKind {
        self.kind
    }

    /// The time of the entry.
    pub closed spec fn timestamp_view(&self) -> std::time::Instant {
        self.timestamp
    }

    /// The kind of the entry.
    pub fn kind(&self) -> (k: EntryKind)
        ensures
            k == self.kind_view(),
    {
        self.kind
    }

    /// The time of the entry.
    pub fn timestamp(&self) -> (t: std::time::Instant)
        ensures
            t == self.timestamp_view(),
    {
        self.timestamp
    }
}

impl Output {
    /// The buffer is exactly cut into the entries.
    pub closed spec fn wf(&self) -> bool {
        entries_tile(self.entries@, self.buf@.len() as int)
    }

    /// Every entry of `before` is still there, with its kind, time and bytes.
    pub open spec fn keeps_entries_of(&self, before: Output) -> bool {
        &&& before.len_view() <= self.len_view()
        &&& forall|i: int| 0 <= i < before.len_view() ==> {
            &&& #[trigger] self.data_at(i) == before.data_at(i)
            &&& self.kind_at(i) == before.kind_at(i)
            &&& self.time_at(i) == before.time_at(i)
        }
    }

    /// The number of entries.
    pub closed spec fn len_view(&self) -> nat {
        self.entries@.len()
    }

    /// The kind of entry `i`.
    pub closed spec fn kind_at(&self, i: int) -> EntryKind {
        self.entries@[i].kind
    }

    /// The time of entry `i`.
    pub closed spec fn time_at(&self, i: int) -> std::time::Instant {
        self.entries@[i].timestamp
    }

    /// The bytes of entry `i`.
    pub closed spec fn data_at(&self, i: int) -> Seq<u8> {
        self.buf@.subrange(self.entries@[i].offset as int, self.entries@[i].offset + self.entries@[i].length)
    }

    /// All logged bytes in order.
    pub closed spec fn bytes(&self) -> Seq<u8> {
        self.buf@
    }

    /// An empty log.
    pub fn new() -> (o: Output)
        ensures
            o.wf(),
            o.len_view() == 0,
            o.bytes() == Seq::<u8>::empty(),
    {
        Output { buf: Vec::new(), entries: Vec::new() }
    }

    /// Appends an entry holding `data`; the entries before it keep their bytes.
    pub fn log_entry(&mut self, kind: EntryKind, timestamp: std::time::Instant, data: &[u8])
        requires
            old(self).wf(),
            old(self).bytes().len() + data@.len() <= usize::MAX,
        ensures
            final(self).wf(),
            final(self).len_view() == old(self).len_view() + 1,
            final(self).kind_at(old(self).len_view() as int) == kind,
            final(self).time_at(old(self).len_view() as int) == timestamp,
            final(self).data_at(old(self).len_view() as int) == data@,
            final(self).bytes() == old(self).bytes() + data@,
            final(self).keeps_entries_of(*old(self)),
    {
        let offset = self.buf.len();
        let e = Entry { offset, length: data.len(), kind, timestamp };
        self.entries.push(e);
        let n = data.len();
        let mut i: usize = 0;
        while i < n
            invariant
                n == data@.len(),
                i <= n,
                offset == old(self).buf@.len(),
                self.buf@ == old(self).buf@ + data@.take(i as int),
                self.entries@ == old(self).entries@.push(e),
            decreases n - i,
        {
            self.buf.push(data[i]);
            assert(data@.take((i + 1) as int) =~= data@.take(i as int).push(data@[i as int]));
            i = i + 1;
        }
        proof {
            assert(data@.take(n as int) =~= data@);
            let es = self.entries@;
            let olde = old(self).entries@;
            assert(self.buf@.subrange(offset as int, offset + n) =~= data@);
            assert forall|j: int| 0 <= j < olde.len() implies
                self.buf@.subrange(es[j].offset as int, es[j].offset + es[j].length)
                    =~= old(self).buf@.subrange(olde[j].offset as int, olde[j].offset + olde[j].length) by {
                lemma_entry_within(olde, old(self).buf@.len() as int, j);
            }
            assert forall|j: int| 0 <= j < es.len() - 1 implies #[trigger] es[j + 1].offset == es[j].offset + es[j].length by {
                if j < olde.len() - 1 {
                    assert(es[j + 1] == olde[j + 1]);
                }
            }
        }
    }

    /// Appends an entry holding the UTF-8 bytes of `text`.
    pub fn log_entry_text(&mut self, kind: EntryKind, timestamp: std::time::Instant, text: &str)
        requires
            old(self).wf(),
            old(self).bytes().len() + text.spec_bytes().len() <= usize::MAX,
        ensures
            final(self).wf(),
            final(self).len_view() == old(self).len_view() + 1,
            final(self).kind_at(old(self).len_view() as int) == kind,
            final(self).time_at(old(self).len_view() as int) == timestamp,
            final(self).data_at(old(self).len_view() as int) == text.spec_bytes(),
            final(self).bytes() == old(self).bytes() + text.spec_bytes(),
            final(self).keeps_entries_of(*old(self)),
    {
        let bytes = text.as_bytes();
        self.log_entry(kind, timestamp, bytes);
    }

    /// Appends a status entry: the exit code in decimal, or `?` when there is none.
    pub fn log_status(&mut self, status: Option<i32>, timestamp: std::time::Instant)
        requires
            old(self).wf(),
            old(self).bytes().len() + 11 <= usize::MAX,
        ensures
            final(self).wf(),
            final(self).len_view() == old(self).len_view() + 1,
            final(self).kind_at(old(self).len_view() as int) == EntryKind::Status,
            final(self).time_at(old(self).len_view() as int) == timestamp,
            vstd::utf8::decode_utf8(final(self).data_at(old(self).len_view() as int)) == status_text(status),
            final(self).keeps_entries_of(*old(self)),
    {
        let mut s = String::new();
        match status {
            Some(v) => push_signed_decimal(&mut s, v as i64),
            None => push_char(&mut s, '?'),
        }
        assert(s@ =~= status_text(status));
        let t = s.as_str();
        proof {
            lemma_status_text_ascii(status);
            vstd::string::is_ascii_spec_bytes(t);
            assert(t.spec_bytes().len() == t@.len());
            lemma_status_text_len(status);
            vstd::utf8::encode_utf8_decode_utf8(t@);
        }
        self.log_entry(EntryKind::Status, timestamp, t.as_bytes());
    }

    /// The number of logged bytes.
    pub fn byte_len(&self) -> (n: usize)
        ensures
            n == self.bytes().len(),
    {
        self.buf.len()
    }

    /// The number of entries.
    pub fn len(&self) -> (n: usize)
        ensures
            n == self.len_view(),
    {
        self.entries.len()
    }

    /// The kind of entry `i`.
    pub fn entry(&self, i: usize) -> (e: Entry)
        requires
            i < self.len_view(),
        ensures
            e.kind_view() == self.kind_at(i as int),
            e.timestamp_view() == self.time_at(i as int),
    {
        self.entries[i]
    }

    /// The bytes of entry `i`.
    pub fn entry_data(&self, i: usize) -> (d: &[u8])
        requires
            self.wf(),
            i < self.len_view(),
        ensures
            d@ == self.data_at(i as int),
    {
        proof {
            lemma_entry_within(self.entries@, self.buf@.len() as int, i as int);
        }
        let e = self.entries[i];
        let buf_len = self.buf.len();
        assert(e.offset + e.length <= buf_len);
        vstd::slice::slice_subrange(self.buf.as_slice(), e.offset, e.offset + e.length)
    }

    /// The log as text: one line per entry, its kind's mark, a space and its
    /// bytes decoded as UTF-8 with invalid sequences replaced.
    pub fn render(&self) -> (s: String)
        requires
            self.wf(),
        ensures
            s@ == rendered(self.entry_kinds(), self.entry_datas()),
    {
        let mut out = String::new();
        let n = self.entries.len();
        let mut i: usize = 0;
        while i < n
            invariant
                self.wf(),
                n == self.entries@.len(),
                i <= n,
                out@ == rendered(self.entry_kinds().take(i as int), self.entry_datas().take(i as int)),
            decreases n - i,
        {
            let ghost before = out@;
            push_char(&mut out, self.entries[i].kind.mark());
            push_char(&mut out, ' ');
            let d = self.entry_data(i);
            let text = utf8_lossy(d);
            push_str(&mut out, text.as_str());
            push_char(&mut out, '\n');
            proof {
                let ks = self.entry_kinds().take((i + 1) as int);
                let ds = self.entry_datas().take((i + 1) as int);
                assert(ks.drop_last() =~= self.entry_kinds().take(i as int));
                assert(ds.drop_last() =~= self.entry_datas().take(i as int));
                assert(out@ =~= rendered(ks, ds));
            }
            i = i + 1;
        }
        assert(self.entry_kinds().take(n as int) =~= self.entry_kinds());
        assert(self.entry_datas().take(n as int) =~= self.entry_datas());
        out
    }

    /// The kinds of the entries in order.
    pub closed spec fn entry_kinds(&self) -> Seq<EntryKind> {
        Seq::new(self.entries@.len(), |i: int| self.kind_at(i))
    }

    /// The bytes of the entries in order.
    pub closed spec fn entry_datas(&self) -> Seq<Seq<u8>> {
        Seq::new(self.entries@.len(), |i: int| self.data_at(i))
    }
}

/// The text of a status entry.
pub open spec fn status_text(status: Option<i32>) -> Seq<char> {
    match status {
        Some(v) => signed_decimal(v as int),
        None => seq!['?'],
    }
}

/// Ten to the power `k`.
pub open spec fn pow10(k: nat) -> nat
    decreases k,
{
    if k == 0 { 1 } else { 10 * pow10((k - 1) as nat) }
}

proof fn lemma_decimal_ascii(n: nat)
    ensures
        vstd::utf8::is_ascii_chars(crate::text::decimal(n)),
    decreases n,
{
    if n >= 10 {
        lemma_decimal_ascii(n / 10);
    }
    let d = crate::text::decimal(n);
    assert forall|i: int| 0 <= i < d.len() implies '\0' <= #[trigger] d[i] <= '\u{7f}' by {
        if n >= 10 && i < d.len() - 1 {
            assert(d[i] == crate::text::decimal(n / 10)[i]);
        }
    }
}

proof fn lemma_decimal_len(n: nat, k: nat)
    requires
        k >= 1,
        n < pow10(k),
    ensures
        crate::text::decimal(n).len() <= k,
    decreases k,
{
    if n >= 10 {
        assert(k >= 2) by {
            if k == 1 {
                assert(pow10(1) == 10 * pow10(0));
            }
        }
        assert(pow10(k) == 10 * pow10((k - 1) as nat));
        lemma_decimal_len(n / 10, (k - 1) as nat);
    }
}

proof fn lemma_status_text_ascii(status: Option<i32>)
    ensures
        vstd::utf8::is_ascii_chars(status_text(status)),
{
    match status {
        Some(v) => {
            if v < 0 {
                lemma_decimal_ascii((-(v as int)) as nat);
                let d = crate::text::decimal((-(v as int)) as nat);
                let t = seq!['-'] + d;
                assert forall|i: int| 0 <= i < t.len() implies '\0' <= #[trigger] t[i] <= '\u{7f}' by {
                    if i > 0 {
                        assert(t[i] == d[i - 1]);
                    }
                }
            } else {
                lemma_decimal_ascii(v as nat);
            }
        },
        None => {},
    }
}

proof fn lemma_status_text_len(status: Option<i32>)
    ensures
        status_text(status).len() <= 11,
{
    reveal_with_fuel(pow10, 11);
    assert(pow10(10) == 10000000000);
    match status {
        Some(v) => {
            if v < 0 {
                lemma_decimal_len((-(v as int)) as nat, 10);
            } else {
                lemma_decimal_len(v as nat, 10);
            }
        },
        None => {},
    }
}

/// The rendered log of entries with the given kinds and bytes.
pub open spec fn rendered(kinds: Seq<EntryKind>, datas: Seq<Seq<u8>>) -> Seq<char>
    decreases kinds.len(),
{
    if kinds.len() == 0 || datas.len() == 0 {
        Seq::empty()
    } else {
        rendered(kinds.drop_last(), datas.drop_last()) + seq![kind_mark(kinds.last()), ' '] + lossy_utf8(datas.last()) + seq!['\n']
    }
}

/// Every entry of tiling entries lies within the buffer.
proof fn lemma_entry_within(entries: Seq<Entry>, buf_len: int, j: int)
    requires
        entries_tile(entries, buf_len),
        0 <= j < entries.len(),
    ensures
        0 <= entries[j].offset,
        entries[j].offset + entries[j].length <= buf_len,
    decreases entries.len() - j,
{
    if j < entries.len() - 1 {
        lemma_entry_within(entries, buf_len, j + 1);
        assert(entries[j + 1].offset == entries[j].offset + entries[j].length);
    }
}

/// Logging appends: after an entry of `kind` holding `data` is logged, the
/// rendered log is the earlier rendering followed by one line for the new entry.
pub proof fn law_render_after_log(before: Output, after: Output, kind: EntryKind, data: Seq<u8>)
    requires
        before.wf(),
        after.wf(),
        after.len_view() == before.len_view() + 1,
        after.keeps_entries_of(before),
        after.kind_at(before.len_view() as int) == kind,
        after.data_at(before.len_view() as int) == data,
    ensures
        rendered(after.entry_kinds(), after.entry_datas())
            == rendered(before.entry_kinds(), before.entry_datas()) + seq![kind_mark(kind), ' '] + lossy_utf8(data) + seq!['\n'],
{
    assert forall|i: int| 0 <= i < before.len_view() implies after.kind_at(i) == before.kind_at(i) by {
        assert(after.data_at(i) == before.data_at(i));
    }
    assert(after.entry_kinds().drop_last() =~= before.entry_kinds());
    assert(after.entry_datas().drop_last() =~= before.entry_datas());
}

} // verus!
