//! One reading of a process: the figures in its `/proc` files.
use crate::formula::{Expr, Formula};
use crate::text::{
    begins_with, chars_of, is_blank, is_decimal_literal, is_decimal_text, is_solid, is_space,
    law_first_word, law_leading_spaces, law_unsigned_is_decimal, lines, parse_unsigned,
    split_lines, split_words, unsigned, views, words,
};
use vstd::prelude::*;
use vstd::string::StrSliceExecFns;

verus! {

/// A soft limit from here on counts as no limit.
pub const FD_SOFT_LIMIT_UNLIMITED: u64 = 1_000_000_000;

/// The `/proc` files of one process, and of the system, as they were read; a
/// file that could not be read is `None`.
pub struct ProcFiles {
    /// `/proc/<pid>/status`
    pub status: Option<String>,
    /// How many entries `/proc/<pid>/fd` has.
    pub open_fds: Option<usize>,
    /// `/proc/<pid>/limits`
    pub limits: Option<String>,
    /// `/proc/<pid>/stat`
    pub stat: Option<String>,
    /// `/proc/<pid>/io`
    pub io: Option<String>,
    /// `/proc/meminfo`
    pub meminfo: Option<String>,
    /// `/proc/uptime`
    pub uptime: Option<String>,
}

/// The figures of one sample tick; one that its file does not give is `None`.
pub struct ProcSnapshot {
    pub vm_rss_mb: Option<Formula>,
    pub vm_hwm_mb: Option<Formula>,
    pub vm_size_mb: Option<Formula>,
    pub vm_swap_mb: Option<Formula>,
    pub threads: Option<u64>,
    pub open_fd_count: Option<usize>,
    pub fd_soft_limit: Option<u64>,
    pub utime: Option<u64>,
    pub stime: Option<u64>,
    pub majflt: Option<u64>,
    pub starttime: Option<u64>,
    pub io_read_bytes: Option<u64>,
    pub mem_total_kb: Option<u64>,
    pub system_uptime_sec: Option<Formula>,
}

/// What a `ProcSnapshot` says.
#[verifier::ext_equal]
pub struct Snapshot {
    pub vm_rss_mb: Option<Expr>,
    pub vm_hwm_mb: Option<Expr>,
    pub vm_size_mb: Option<Expr>,
    pub vm_swap_mb: Option<Expr>,
    pub threads: Option<u64>,
    pub open_fd_count: Option<usize>,
    pub fd_soft_limit: Option<u64>,
    pub utime: Option<u64>,
    pub stime: Option<u64>,
    pub majflt: Option<u64>,
    pub starttime: Option<u64>,
    pub io_read_bytes: Option<u64>,
    pub mem_total_kb: Option<u64>,
    pub system_uptime_sec: Option<Expr>,
}

pub open spec fn model_of(f: Option<Formula>) -> Option<Expr> {
    match f {
        Some(f) => Some(f@),
        None => None,
    }
}

impl View for ProcSnapshot {
    type V = Snapshot;

    open spec fn view(&self) -> Snapshot {
        Snapshot {
            vm_rss_mb: model_of(self.vm_rss_mb),
            vm_hwm_mb: model_of(self.vm_hwm_mb),
            vm_size_mb: model_of(self.vm_size_mb),
            vm_swap_mb: model_of(self.vm_swap_mb),
            threads: self.threads,
            open_fd_count: self.open_fd_count,
            fd_soft_limit: self.fd_soft_limit,
            utime: self.utime,
            stime: self.stime,
            majflt: self.majflt,
            starttime: self.starttime,
            io_read_bytes: self.io_read_bytes,
            mem_total_kb: self.mem_total_kb,
            system_uptime_sec: model_of(self.system_uptime_sec),
        }
    }
}

/// The line is the one of `key`: it begins with the key and a colon.
pub open spec fn has_key(line: Seq<char>, key: Seq<char>) -> bool {
    key.push(':').is_prefix_of(line)
}

/// A size in kibibytes, in mebibytes.
pub open spec fn mebibytes(kib: Expr) -> Expr {
    kib.over(Expr::Whole(1024))
}

/// The integer that the word at `n` writes.
pub open spec fn unsigned_at(ws: Seq<Seq<char>>, n: int) -> Option<u64> {
    if n < ws.len() {
        unsigned(ws[n])
    } else {
        None
    }
}

/// The size, in mebibytes, that a `status` line gives for `key`.
pub open spec fn status_mb(line: Seq<char>, key: Seq<char>) -> Option<Expr> {
    let ws = words(line);
    if has_key(line, key) && ws.len() > 1 && is_decimal_text(ws[1]) {
        Some(mebibytes(Expr::Literal(ws[1])))
    } else {
        None
    }
}

/// The count that a `status` line gives for `key`.
pub open spec fn status_count(line: Seq<char>, key: Seq<char>) -> Option<u64> {
    if has_key(line, key) {
        unsigned_at(words(line), 1)
    } else {
        None
    }
}

/// The first size that any of the lines gives for `key`.
pub open spec fn first_mb(ls: Seq<Seq<char>>, key: Seq<char>) -> Option<Expr>
    decreases ls.len(),
{
    if ls.len() == 0 {
        None
    } else {
        match first_mb(ls.drop_last(), key) {
            Some(mb) => Some(mb),
            None => status_mb(ls.last(), key),
        }
    }
}

/// The first count that any of the lines gives for `key`.
pub open spec fn first_count(ls: Seq<Seq<char>>, key: Seq<char>) -> Option<u64>
    decreases ls.len(),
{
    if ls.len() == 0 {
        None
    } else {
        match first_count(ls.drop_last(), key) {
            Some(count) => Some(count),
            None => status_count(ls.last(), key),
        }
    }
}

/// The first line that begins with `prefix`.
pub open spec fn first_line_with(ls: Seq<Seq<char>>, prefix: Seq<char>) -> Option<Seq<char>>
    decreases ls.len(),
{
    if ls.len() == 0 {
        None
    } else if prefix.is_prefix_of(ls[0]) {
        Some(ls[0])
    } else {
        first_line_with(ls.skip(1), prefix)
    }
}

/// The second word, as an integer, of the first line that begins with
/// `prefix`; later such lines do not count.
pub open spec fn value_after(content: Seq<char>, prefix: Seq<char>) -> Option<u64> {
    match first_line_with(lines(content), prefix) {
        Some(line) => unsigned_at(words(line), 1),
        None => None,
    }
}

/// The limit on open files in a `limits` file. A line that names none stands
/// for 0; one that is no integer, or too large, gives nothing.
pub open spec fn open_files_limit(content: Seq<char>) -> Option<u64> {
    match first_line_with(lines(content), "Max open files"@) {
        Some(line) => {
            let soft = if words(line).len() > 3 {
                unsigned(words(line)[3])
            } else {
                Some(0)
            };
            match soft {
                Some(n) => if n < FD_SOFT_LIMIT_UNLIMITED {
                    Some(n)
                } else {
                    None
                },
                None => None,
            }
        },
        None => None,
    }
}

/// Where `c` stands last in `s`.
pub open spec fn last_position(s: Seq<char>, c: char) -> Option<nat>
    decreases s.len(),
{
    if s.len() == 0 {
        None
    } else if s.last() == c {
        Some((s.len() - 1) as nat)
    } else {
        last_position(s.drop_last(), c)
    }
}

/// A `stat` file has a separator behind the last parenthesis, which closes
/// the command's name: one more character, in ASCII.
pub open spec fn stat_well_shaped(content: Seq<char>) -> bool {
    match last_position(content, ')') {
        Some(p) => p + 1 < content.len() && (content[p as int + 1] as u32) < 0x80,
        None => true,
    }
}

/// The fields of a `stat` file behind the command's name and its separator.
pub open spec fn stat_fields(content: Seq<char>) -> Option<Seq<Seq<char>>> {
    match last_position(content, ')') {
        Some(p) => Some(words(content.skip(p as int + 2))),
        None => None,
    }
}

/// The field at `n` of a `stat` file.
pub open spec fn stat_field(content: Seq<char>, n: int) -> Option<u64> {
    match stat_fields(content) {
        Some(fields) => unsigned_at(fields, n),
        None => None,
    }
}

/// The uptime in an `uptime` file: its first word.
pub open spec fn uptime_of(content: Seq<char>) -> Option<Expr> {
    let ws = words(content);
    if ws.len() > 0 && is_decimal_text(ws[0]) {
        Some(Expr::Literal(ws[0]))
    } else {
        None
    }
}

pub open spec fn either<T>(first: Option<T>, second: Option<T>) -> Option<T> {
    match first {
        Some(v) => Some(v),
        None => second,
    }
}

impl Snapshot {
    pub open spec fn empty() -> Snapshot {
        Snapshot {
            vm_rss_mb: None,
            vm_hwm_mb: None,
            vm_size_mb: None,
            vm_swap_mb: None,
            threads: None,
            open_fd_count: None,
            fd_soft_limit: None,
            utime: None,
            stime: None,
            majflt: None,
            starttime: None,
            io_read_bytes: None,
            mem_total_kb: None,
            system_uptime_sec: None,
        }
    }

    /// The snapshot with what `status` lines give for figures it lacks.
    pub open spec fn with_status(self, ls: Seq<Seq<char>>) -> Snapshot {
        Snapshot {
            vm_rss_mb: either(self.vm_rss_mb, first_mb(ls, "VmRSS"@)),
            vm_hwm_mb: either(self.vm_hwm_mb, first_mb(ls, "VmHWM"@)),
            vm_size_mb: either(self.vm_size_mb, first_mb(ls, "VmSize"@)),
            vm_swap_mb: either(self.vm_swap_mb, first_mb(ls, "VmSwap"@)),
            threads: either(self.threads, first_count(ls, "Threads"@)),
            ..self
        }
    }

    /// The snapshot with the limit that a `limits` file gives.
    pub open spec fn with_limits(self, content: Seq<char>) -> Snapshot {
        Snapshot { fd_soft_limit: either(open_files_limit(content), self.fd_soft_limit), ..self }
    }

    /// The snapshot with what a `stat` file gives; one without a command's
    /// name changes nothing.
    pub open spec fn with_stat(self, content: Seq<char>) -> Snapshot {
        if stat_fields(content) is Some {
            Snapshot {
                majflt: stat_field(content, 9),
                utime: stat_field(content, 11),
                stime: stat_field(content, 12),
                starttime: stat_field(content, 19),
                ..self
            }
        } else {
            self
        }
    }
}

/// The snapshot that the files give.
pub open spec fn snapshot_of(files: ProcFiles) -> Snapshot {
    let named = match files.status {
        Some(content) => Snapshot::empty().with_status(lines(content@)),
        None => Snapshot::empty(),
    };
    let limited = match files.limits {
        Some(content) => named.with_limits(content@),
        None => named,
    };
    let timed = match files.stat {
        Some(content) => limited.with_stat(content@),
        None => limited,
    };
    Snapshot {
        open_fd_count: files.open_fds,
        io_read_bytes: match files.io {
            Some(content) => value_after(content@, "read_bytes:"@),
            None => None,
        },
        mem_total_kb: match files.meminfo {
            Some(content) => value_after(content@, "MemTotal:"@),
            None => None,
        },
        system_uptime_sec: match files.uptime {
            Some(content) => uptime_of(content@),
            None => None,
        },
        ..timed
    }
}

fn line_has_key(line: &str, key: &str) -> (r: bool)
    ensures
        r == has_key(line@, key@),
{
    let text = chars_of(line);
    if !begins_with(line, key) {
        assert(key@ =~= key@.push(':').take(key@.len() as int));
        return false;
    }
    let n = chars_of(key).len();
    if text.len() > n && text[n] == ':' {
        true
    } else {
        proof {
            let p = key@.push(':');
            if p.is_prefix_of(line@) {
                assert(line@[n as int] == p[n as int]);
            }
        }
        false
    }
}

/// The size, in mebibytes, that a `status` line gives for `key`.
pub fn parse_status_kib_line(line: &str, key: &str) -> (r: Option<Formula>)
    ensures
        model_of(r) == status_mb(line@, key@),
{
    if !line_has_key(line, key) {
        return None;
    }
    let ws = split_words(line);
    if ws.len() <= 1 {
        return None;
    }
    if is_decimal_literal(ws[1]) {
        let kib = Formula::Literal(ws[1].to_owned());
        Some(kib.over(Formula::Whole(1024)))
    } else {
        None
    }
}

/// The integer that the word at `n` writes.
fn parse_word(ws: &Vec<&str>, n: usize) -> (r: Option<u64>)
    ensures
        r == unsigned_at(views(ws@), n as int),
{
    if n < ws.len() {
        parse_unsigned(ws[n])
    } else {
        None
    }
}

/// The count that a `status` line gives for `key`.
pub fn parse_status_count_line(line: &str, key: &str) -> (r: Option<u64>)
    ensures
        r == status_count(line@, key@),
{
    if !line_has_key(line, key) {
        return None;
    }
    parse_word(&split_words(line), 1)
}

/// The first line of `content` that begins with `prefix`.
fn find_line<'a>(content: &'a str, prefix: &str) -> (r: Option<&'a str>)
    ensures
        match r {
            Some(line) => first_line_with(lines(content@), prefix@) == Some(line@),
            None => first_line_with(lines(content@), prefix@) is None,
        },
{
    let ls = split_lines(content);
    let ghost all = lines(content@);
    let mut i: usize = 0;
    assert(all.skip(0) =~= all);
    while i < ls.len()
        invariant
            all == lines(content@),
            views(ls@) == all,
            i <= ls.len(),
            first_line_with(all, prefix@) == first_line_with(all.skip(i as int), prefix@),
        decreases ls.len() - i,
    {
        if begins_with(ls[i], prefix) {
            return Some(ls[i]);
        }
        assert(all.skip(i as int).skip(1) =~= all.skip(i + 1));
        i = i + 1;
    }
    None
}

/// The bytes that an `io` file says were read from storage.
pub fn read_io_read_bytes(content: &str) -> (r: Option<u64>)
    ensures
        r == value_after(content@, "read_bytes:"@),
{
    match find_line(content, "read_bytes:") {
        Some(line) => parse_word(&split_words(line), 1),
        None => None,
    }
}

/// The memory of the system, in kibibytes, by its `meminfo` file.
pub fn read_mem_total_kb(content: &str) -> (r: Option<u64>)
    ensures
        r == value_after(content@, "MemTotal:"@),
{
    match find_line(content, "MemTotal:") {
        Some(line) => parse_word(&split_words(line), 1),
        None => None,
    }
}

/// How long the system has been up, in seconds, by its `uptime` file.
pub fn read_system_uptime_sec(content: &str) -> (r: Option<Formula>)
    ensures
        model_of(r) == uptime_of(content@),
{
    let ws = split_words(content);
    if ws.len() == 0 {
        return None;
    }
    if is_decimal_literal(ws[0]) {
        Some(Formula::Literal(ws[0].to_owned()))
    } else {
        None
    }
}

proof fn lemma_last_position(s: Seq<char>, c: char, n: int)
    requires
        0 <= n <= s.len(),
        forall|i: int| n <= i < s.len() ==> s[i] != c,
    ensures
        last_position(s, c) == last_position(s.take(n), c),
    decreases s.len(),
{
    if n == s.len() {
        assert(s.take(n) =~= s);
    } else {
        assert(s.drop_last().take(n) =~= s.take(n));
        lemma_last_position(s.drop_last(), c, n);
    }
}

/// Where `c` stands last in `chars`.
fn find_last(chars: &Vec<char>, c: char) -> (r: Option<usize>)
    ensures
        match r {
            Some(p) => p < chars.len() && last_position(chars@, c) == Some(p as nat),
            None => last_position(chars@, c) is None,
        },
{
    let mut i: usize = chars.len();
    while i > 0
        invariant
            i <= chars.len(),
            forall|j: int| i <= j < chars.len() ==> chars@[j] != c,
        decreases i,
    {
        i = i - 1;
        if chars[i] == c {
            proof {
                lemma_last_position(chars@, c, i + 1);
            }
            return Some(i);
        }
    }
    proof {
        lemma_last_position(chars@, c, 0);
    }
    None
}

/// Whether a `stat` file can be read: `ProcSnapshot::read` asks for it.
pub fn stat_is_well_shaped(content: &str) -> (r: bool)
    ensures
        r == stat_well_shaped(content@),
{
    let chars = chars_of(content);
    match find_last(&chars, ')') {
        Some(p) => p + 1 < chars.len() && is_ascii_char(chars[p + 1]),
        None => true,
    }
}

fn is_ascii_char(c: char) -> (r: bool)
    ensures
        r == ((c as u32) < 0x80),
{
    (c as u32) < 0x80
}

impl ProcSnapshot {
    /// The figures in `files`.
    pub fn read(files: &ProcFiles) -> (r: ProcSnapshot)
        requires
            files.stat matches Some(content) ==> stat_well_shaped(content@),
        ensures
            r@ == snapshot_of(*files),
    {
        let mut snap = ProcSnapshot {
            vm_rss_mb: None,
            vm_hwm_mb: None,
            vm_size_mb: None,
            vm_swap_mb: None,
            threads: None,
            open_fd_count: None,
            fd_soft_limit: None,
            utime: None,
            stime: None,
            majflt: None,
            starttime: None,
            io_read_bytes: None,
            mem_total_kb: None,
            system_uptime_sec: None,
        };
        if let Some(content) = &files.status {
            snap.read_status(content.as_str());
        }
        snap.open_fd_count = files.open_fds;
        if let Some(content) = &files.limits {
            snap.read_limits(content.as_str());
        }
        if let Some(content) = &files.stat {
            snap.read_stat(content.as_str());
        }
        if let Some(content) = &files.io {
            snap.io_read_bytes = read_io_read_bytes(content.as_str());
        }
        if let Some(content) = &files.meminfo {
            snap.mem_total_kb = read_mem_total_kb(content.as_str());
        }
        if let Some(content) = &files.uptime {
            snap.system_uptime_sec = read_system_uptime_sec(content.as_str());
        }
        snap
    }

    /// Takes the figures of a `status` file that the snapshot lacks. A line
    /// that does not give its figure is passed over.
    fn read_status(&mut self, content: &str)
        ensures
            final(self)@ == old(self)@.with_status(lines(content@)),
    {
        let ls = split_lines(content);
        let ghost all = lines(content@);
        let ghost before = self@;
        let mut i: usize = 0;
        while i < ls.len()
            invariant
                views(ls@) == all,
                i <= ls.len(),
                self@ == before.with_status(all.take(i as int)),
            decreases ls.len() - i,
        {
            let line = ls[i];
            assert(all.take(i + 1).drop_last() =~= all.take(i as int));
            if self.vm_rss_mb.is_none() {
                self.vm_rss_mb = parse_status_kib_line(line, "VmRSS");
            }
            if self.vm_hwm_mb.is_none() {
                self.vm_hwm_mb = parse_status_kib_line(line, "VmHWM");
            }
            if self.vm_size_mb.is_none() {
                self.vm_size_mb = parse_status_kib_line(line, "VmSize");
            }
            if self.vm_swap_mb.is_none() {
                self.vm_swap_mb = parse_status_kib_line(line, "VmSwap");
            }
            if self.threads.is_none() {
                self.threads = parse_status_count_line(line, "Threads");
            }
            i = i + 1;
        }
        assert(all.take(all.len() as int) =~= all);
    }

    /// Takes the limit on open files from a `limits` file.
    fn read_limits(&mut self, content: &str)
        ensures
            final(self)@ == old(self)@.with_limits(content@),
    {
        if let Some(line) = find_line(content, "Max open files") {
            let ws = split_words(line);
            let soft = if ws.len() > 3 {
                parse_word(&ws, 3)
            } else {
                Some(0)
            };
            if let Some(soft) = soft {
                if soft < FD_SOFT_LIMIT_UNLIMITED {
                    self.fd_soft_limit = Some(soft);
                }
            }
        }
    }

    /// Takes the figures of a `stat` file.
    fn read_stat(&mut self, content: &str)
        requires
            stat_well_shaped(content@),
        ensures
            final(self)@ == old(self)@.with_stat(content@),
    {
        let chars = chars_of(content);
        if let Some(rparen) = find_last(&chars, ')') {
            let rest = content.substring_char(rparen + 2, chars.len());
            let fields = split_words(rest);
            self.majflt = parse_word(&fields, 9);
            self.utime = parse_word(&fields, 11);
            self.stime = parse_word(&fields, 12);
            self.starttime = parse_word(&fields, 19);
        }
    }
}

/// A `status` line as the system writes it, with the key, a colon, some space,
/// the figure and perhaps a unit, gives its figure for that key.
pub proof fn law_status_line_is_read(
    key: Seq<char>,
    gap: Seq<char>,
    figure: Seq<char>,
    unit: Seq<char>,
)
    requires
        forall|i: int| 0 <= i < key.len() ==> !is_space(#[trigger] key[i]),
        gap.len() > 0,
        is_blank(gap),
        is_solid(figure),
        unit.len() > 0 ==> is_space(unit[0]),
    ensures
        status_count(key.push(':') + gap + figure + unit, key) == unsigned(figure),
        status_mb(key.push(':') + gap + figure + unit, key) == if is_decimal_text(figure) {
            Some(Expr::Literal(figure).over(Expr::Whole(1024)))
        } else {
            None
        },
{
    let head = key.push(':');
    let line = head + gap + figure + unit;
    let rest = gap + (figure + unit);
    assert(line =~= head + rest);
    law_first_word(head, rest);
    law_leading_spaces(gap, figure + unit);
    law_first_word(figure, unit);
}

/// A line gives a figure for a key only where it begins with the key and a
/// colon, and the figure is then its second word, whatever else it holds: as an
/// integer for a count, and as a number over 1024 for a size.
pub proof fn law_status_figure_is_second_word(line: Seq<char>, key: Seq<char>)
    ensures
        status_count(line, key) is Some || status_mb(line, key) is Some ==> {
            &&& line.len() > key.len()
            &&& line.take(key.len() as int) == key
            &&& line[key.len() as int] == ':'
            &&& words(line).len() >= 2
        },
        line.len() > key.len() && line.take(key.len() as int) == key && line[key.len() as int]
            == ':' && words(line).len() >= 2 ==> {
            &&& status_count(line, key) == unsigned(words(line)[1])
            &&& is_decimal_text(words(line)[1]) ==> status_mb(line, key) == Some(
                Expr::Literal(words(line)[1]).over(Expr::Whole(1024)),
            )
            &&& !is_decimal_text(words(line)[1]) ==> status_mb(line, key) is None
        },
{
    let n = key.len() as int;
    let p = key.push(':');
    if p.is_prefix_of(line) {
        assert(line.take(n + 1) =~= p);
        assert(line[n] == p[n]);
        assert(line.take(n) =~= key);
    } else if line.len() > n && line.take(n) == key && line[n] == ':' {
        assert(line.take(n + 1) =~= p);
    }
}

proof fn lemma_first_mb(ls: Seq<Seq<char>>, key: Seq<char>, n: int)
    requires
        0 <= n <= ls.len(),
        forall|i: int| 0 <= i < n ==> status_mb(#[trigger] ls[i], key) is None,
        n < ls.len() ==> status_mb(ls[n], key) is Some,
    ensures
        first_mb(ls, key) == if n < ls.len() {
            status_mb(ls[n], key)
        } else {
            None
        },
    decreases ls.len(),
{
    if ls.len() > 0 {
        let before = ls.drop_last();
        lemma_first_mb(
            before,
            key,
            if n < ls.len() {
                n
            } else {
                n - 1
            },
        );
    }
}

proof fn lemma_first_count(ls: Seq<Seq<char>>, key: Seq<char>, n: int)
    requires
        0 <= n <= ls.len(),
        forall|i: int| 0 <= i < n ==> status_count(#[trigger] ls[i], key) is None,
        n < ls.len() ==> status_count(ls[n], key) is Some,
    ensures
        first_count(ls, key) == if n < ls.len() {
            status_count(ls[n], key)
        } else {
            None
        },
    decreases ls.len(),
{
    if ls.len() > 0 {
        let before = ls.drop_last();
        lemma_first_count(
            before,
            key,
            if n < ls.len() {
                n
            } else {
                n - 1
            },
        );
    }
}

/// Each size of a snapshot is that of the first line of the `status` file, at
/// `n`, that gives one for its own key; there is none where no line does, with
/// `n` at the end, and without the file.
pub proof fn law_sizes_by_key(files: ProcFiles, n: int)
    ensures
        match files.status {
            Some(content) => {
                let ls = lines(content@);
                let snap = snapshot_of(files);
                &&& 0 <= n <= ls.len() && (n < ls.len() ==> status_mb(ls[n], "VmRSS"@) is Some) && (
                forall|i: int| 0 <= i < n ==> status_mb(#[trigger] ls[i], "VmRSS"@) is None)
                    ==> snap.vm_rss_mb == if n < ls.len() {
                    status_mb(ls[n], "VmRSS"@)
                } else {
                    None
                }
                &&& 0 <= n <= ls.len() && (n < ls.len() ==> status_mb(ls[n], "VmHWM"@) is Some) && (
                forall|i: int| 0 <= i < n ==> status_mb(#[trigger] ls[i], "VmHWM"@) is None)
                    ==> snap.vm_hwm_mb == if n < ls.len() {
                    status_mb(ls[n], "VmHWM"@)
                } else {
                    None
                }
                &&& 0 <= n <= ls.len() && (n < ls.len() ==> status_mb(ls[n], "VmSize"@) is Some) && (
                forall|i: int| 0 <= i < n ==> status_mb(#[trigger] ls[i], "VmSize"@) is None)
                    ==> snap.vm_size_mb == if n < ls.len() {
                    status_mb(ls[n], "VmSize"@)
                } else {
                    None
                }
                &&& 0 <= n <= ls.len() && (n < ls.len() ==> status_mb(ls[n], "VmSwap"@) is Some) && (
                forall|i: int| 0 <= i < n ==> status_mb(#[trigger] ls[i], "VmSwap"@) is None)
                    ==> snap.vm_swap_mb == if n < ls.len() {
                    status_mb(ls[n], "VmSwap"@)
                } else {
                    None
                }
            },
            None => {
                let snap = snapshot_of(files);
                &&& snap.vm_rss_mb is None
                &&& snap.vm_hwm_mb is None
                &&& snap.vm_size_mb is None
                &&& snap.vm_swap_mb is None
            },
        },
{
    if let Some(content) = files.status {
        let ls = lines(content@);
        lemma_size_by_key(ls, "VmRSS"@, n);
        lemma_size_by_key(ls, "VmHWM"@, n);
        lemma_size_by_key(ls, "VmSize"@, n);
        lemma_size_by_key(ls, "VmSwap"@, n);
    }
}

proof fn lemma_size_by_key(ls: Seq<Seq<char>>, key: Seq<char>, n: int)
    ensures
        0 <= n <= ls.len() && (n < ls.len() ==> status_mb(ls[n], key) is Some) && (forall|i: int|
            0 <= i < n ==> status_mb(#[trigger] ls[i], key) is None) ==> first_mb(ls, key)
            == if n < ls.len() {
            status_mb(ls[n], key)
        } else {
            None
        },
{
    if 0 <= n <= ls.len() && (n < ls.len() ==> status_mb(ls[n], key) is Some) && (forall|i: int|
        0 <= i < n ==> status_mb(#[trigger] ls[i], key) is None) {
        lemma_first_mb(ls, key, n);
    }
}

/// The threads of a snapshot are those of the first line of the `status` file
/// that gives a count for that key, at `n`; with `n` at the end, or without the
/// file, there are none.
pub proof fn law_threads_by_key(files: ProcFiles, n: int)
    requires
        files.status matches Some(content) ==> {
            &&& 0 <= n <= lines(content@).len()
            &&& forall|i: int|
                0 <= i < n ==> status_count(#[trigger] lines(content@)[i], "Threads"@) is None
            &&& n < lines(content@).len() ==> status_count(lines(content@)[n], "Threads"@) is Some
        },
    ensures
        snapshot_of(files).threads == match files.status {
            Some(content) => if n < lines(content@).len() {
                status_count(lines(content@)[n], "Threads"@)
            } else {
                None
            },
            None => None,
        },
{
    if let Some(content) = files.status {
        lemma_first_count(lines(content@), "Threads"@, n);
    }
}

proof fn lemma_first_line_with(ls: Seq<Seq<char>>, prefix: Seq<char>, n: int)
    requires
        0 <= n <= ls.len(),
        forall|i: int| 0 <= i < n ==> !prefix.is_prefix_of(#[trigger] ls[i]),
        n < ls.len() ==> prefix.is_prefix_of(ls[n]),
    ensures
        first_line_with(ls, prefix) == if n < ls.len() {
            Some(ls[n])
        } else {
            None
        },
    decreases n,
{
    if n > 0 {
        lemma_first_line_with(ls.skip(1), prefix, n - 1);
    }
}

/// The limit on open files is the fourth word of the first line, at `n`, that
/// begins with `Max open files`, and 0 where that line ends before. A word that
/// is no integer, and an integer from 1000000000 on, give no limit; nor does a
/// file without such a line, or no file.
pub proof fn law_open_files_limit(files: ProcFiles, n: int)
    requires
        files.limits matches Some(content) ==> {
            &&& 0 <= n <= lines(content@).len()
            &&& forall|i: int|
                0 <= i < n ==> !"Max open files"@.is_prefix_of(#[trigger] lines(content@)[i])
            &&& n < lines(content@).len() ==> "Max open files"@.is_prefix_of(lines(content@)[n])
        },
    ensures
        files.limits is None ==> snapshot_of(files).fd_soft_limit is None,
        files.limits matches Some(content) ==> {
            let ls = lines(content@);
            let limit = snapshot_of(files).fd_soft_limit;
            &&& n == ls.len() ==> limit is None
            &&& n < ls.len() && words(ls[n]).len() <= 3 ==> limit == Some(0u64)
            &&& n < ls.len() && words(ls[n]).len() > 3 ==> match unsigned(words(ls[n])[3]) {
                Some(soft) => {
                    &&& soft < 1_000_000_000 ==> limit == Some(soft)
                    &&& soft >= 1_000_000_000 ==> limit is None
                },
                None => limit is None,
            }
        },
{
    if let Some(content) = files.limits {
        lemma_first_line_with(lines(content@), "Max open files"@, n);
    }
}

/// The value behind a prefix is the second word of the first line, at `n`, that
/// begins with it; there is none where that line has no second word, where the
/// word is no integer, and where no line begins so.
pub proof fn law_value_after_prefix(content: Seq<char>, prefix: Seq<char>, n: int)
    requires
        0 <= n <= lines(content).len(),
        forall|i: int| 0 <= i < n ==> !prefix.is_prefix_of(#[trigger] lines(content)[i]),
        n < lines(content).len() ==> prefix.is_prefix_of(lines(content)[n]),
    ensures
        value_after(content, prefix) == if n < lines(content).len() && words(
            lines(content)[n],
        ).len() >= 2 {
            unsigned(words(lines(content)[n])[1])
        } else {
            None
        },
{
    lemma_first_line_with(lines(content), prefix, n);
}

/// The bytes read, the memory of the system and its uptime each come from their
/// own file alone, and the open descriptors are those counted. The uptime is the
/// first word of its file, where that writes a number.
pub proof fn law_figures_by_file(files: ProcFiles)
    ensures
        snapshot_of(files).open_fd_count == files.open_fds,
        snapshot_of(files).io_read_bytes == match files.io {
            Some(content) => value_after(content@, "read_bytes:"@),
            None => None,
        },
        snapshot_of(files).mem_total_kb == match files.meminfo {
            Some(content) => value_after(content@, "MemTotal:"@),
            None => None,
        },
        match files.uptime {
            Some(content) => {
                let ws = words(content@);
                let uptime = snapshot_of(files).system_uptime_sec;
                &&& uptime == uptime_of(content@)
                &&& ws.len() > 0 && is_decimal_text(ws[0]) ==> uptime == Some(Expr::Literal(ws[0]))
                &&& ws.len() == 0 || !is_decimal_text(ws[0]) ==> uptime is None
            },
            None => snapshot_of(files).system_uptime_sec is None,
        },
{
}

/// The first word of an `uptime` text is the uptime, where it writes a number.
pub proof fn law_uptime_is_first_word(word: Seq<char>, rest: Seq<char>)
    requires
        is_solid(word),
        rest.len() > 0 ==> is_space(rest[0]),
    ensures
        is_decimal_text(word) ==> uptime_of(word + rest) == Some(Expr::Literal(word)),
        !is_decimal_text(word) ==> uptime_of(word + rest) is None,
{
    law_first_word(word, rest);
}

/// Which words of a `stat` file are which figures. Counted behind the command's
/// name, whatever that holds, the major faults are the word at 9, the processor
/// times those at 11 and 12, and the start that at 19: each by itself, whatever
/// the other words are, and none where there is no such word or it is no
/// integer. A file without a command's name, and no file, give none of them.
pub proof fn law_stat_figures(
    files: ProcFiles,
    name: Seq<char>,
    separator: char,
    fields: Seq<char>,
)
    requires
        separator != ')',
        forall|i: int| 0 <= i < fields.len() ==> #[trigger] fields[i] != ')',
    ensures
        files.stat matches Some(content) && content@ == name.push(')').push(separator) + fields
            ==> {
            let ws = words(fields);
            let snap = snapshot_of(files);
            &&& snap.majflt == if ws.len() > 9 {
                unsigned(ws[9])
            } else {
                None
            }
            &&& snap.utime == if ws.len() > 11 {
                unsigned(ws[11])
            } else {
                None
            }
            &&& snap.stime == if ws.len() > 12 {
                unsigned(ws[12])
            } else {
                None
            }
            &&& snap.starttime == if ws.len() > 19 {
                unsigned(ws[19])
            } else {
                None
            }
        },
        files.stat is None || (files.stat matches Some(content) && content@ == fields) ==> {
            let snap = snapshot_of(files);
            &&& snap.majflt is None
            &&& snap.utime is None
            &&& snap.stime is None
            &&& snap.starttime is None
        },
{
    law_stat_name_is_skipped(name, separator, fields);
    lemma_last_position(fields, ')', 0);
}

/// Two `stat` files whose words at 9, 11, 12 and 19 behind the name are the same
/// give the same four figures, however else they differ.
pub proof fn law_stat_figures_rest_on_four_words(
    files: ProcFiles,
    other: ProcFiles,
    name: Seq<char>,
    other_name: Seq<char>,
    fields: Seq<char>,
    other_fields: Seq<char>,
)
    requires
        files.stat matches Some(content) && content@ == name.push(')').push(' ') + fields,
        other.stat matches Some(content) && content@ == other_name.push(')').push(' ')
            + other_fields,
        forall|i: int| 0 <= i < fields.len() ==> #[trigger] fields[i] != ')',
        forall|i: int| 0 <= i < other_fields.len() ==> #[trigger] other_fields[i] != ')',
        words(fields).len() >= 20,
        words(other_fields).len() >= 20,
        words(fields)[9] == words(other_fields)[9],
        words(fields)[11] == words(other_fields)[11],
        words(fields)[12] == words(other_fields)[12],
        words(fields)[19] == words(other_fields)[19],
    ensures
        snapshot_of(files).majflt == snapshot_of(other).majflt,
        snapshot_of(files).utime == snapshot_of(other).utime,
        snapshot_of(files).stime == snapshot_of(other).stime,
        snapshot_of(files).starttime == snapshot_of(other).starttime,
{
    law_stat_figures(files, name, ' ', fields);
    law_stat_figures(other, other_name, ' ', other_fields);
}

/// A `stat` text can be read where a character of ASCII stands behind the
/// command's name, and where it has no such name; not where it ends with the
/// name or goes on with another character.
pub proof fn law_stat_shape(name: Seq<char>, separator: char, fields: Seq<char>)
    requires
        separator != ')',
        forall|i: int| 0 <= i < fields.len() ==> #[trigger] fields[i] != ')',
    ensures
        stat_well_shaped(name.push(')').push(separator) + fields) <==> (separator as u32) < 128,
        !stat_well_shaped(name.push(')')),
        stat_well_shaped(fields),
{
    let s = name.push(')').push(separator) + fields;
    let n = name.len() as int;
    lemma_last_position(s, ')', n + 1);
    assert(s.take(n + 1).last() == ')');
    lemma_last_position(fields, ')', 0);
}

/// What a snapshot says of a figure is what its field holds.
pub proof fn law_snapshot_says_its_fields(snap: ProcSnapshot)
    ensures
        snap.vm_rss_mb matches Some(f) ==> snap@.vm_rss_mb == Some(f@),
        snap.vm_rss_mb is None ==> snap@.vm_rss_mb is None,
        snap.vm_hwm_mb matches Some(f) ==> snap@.vm_hwm_mb == Some(f@),
        snap.vm_hwm_mb is None ==> snap@.vm_hwm_mb is None,
        snap.vm_size_mb matches Some(f) ==> snap@.vm_size_mb == Some(f@),
        snap.vm_size_mb is None ==> snap@.vm_size_mb is None,
        snap.vm_swap_mb matches Some(f) ==> snap@.vm_swap_mb == Some(f@),
        snap.vm_swap_mb is None ==> snap@.vm_swap_mb is None,
        snap.system_uptime_sec matches Some(f) ==> snap@.system_uptime_sec == Some(f@),
        snap.system_uptime_sec is None ==> snap@.system_uptime_sec is None,
        snap@.threads == snap.threads,
        snap@.open_fd_count == snap.open_fd_count,
        snap@.fd_soft_limit == snap.fd_soft_limit,
        snap@.utime == snap.utime,
        snap@.stime == snap.stime,
        snap@.majflt == snap.majflt,
        snap@.starttime == snap.starttime,
        snap@.io_read_bytes == snap.io_read_bytes,
        snap@.mem_total_kb == snap.mem_total_kb,
{
}

/// A figure that was read says what its formula says, and one that was not says
/// nothing.
pub proof fn law_figure_says_its_formula(f: Formula)
    ensures
        model_of(Some(f)) == Some(f@),
        model_of(None) is None,
{
}

/// Where a `status` line gives a count, it gives a size too, and the size is the
/// count divided by 1024.
pub proof fn law_size_is_count_over_1024(line: Seq<char>, key: Seq<char>)
    requires
        status_count(line, key) is Some,
    ensures
        status_mb(line, key) matches Some(mb) && mb.value() == (status_count(line, key)->0 as real)
            / 1024real,
{
    reveal_with_fuel(Expr::exact, 2);
    law_unsigned_is_decimal(words(line)[1]);
}

/// The command's name in a `stat` file may hold anything, spaces and
/// parentheses too: the fields are what stands behind its end.
pub proof fn law_stat_name_is_skipped(name: Seq<char>, separator: char, fields: Seq<char>)
    requires
        separator != ')',
        forall|i: int| 0 <= i < fields.len() ==> #[trigger] fields[i] != ')',
    ensures
        stat_fields(name.push(')').push(separator) + fields) == Some(words(fields)),
{
    let s = name.push(')').push(separator) + fields;
    let n = name.len() as int;
    lemma_last_position(s, ')', n + 1);
    assert(s.skip(n + 2) =~= fields);
}

} // verus!
