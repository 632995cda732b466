//! System metrics from the Linux `/proc` files: reading the first CPU line
//! of `/proc/stat` and the memory totals of `/proc/meminfo`, the CPU time
//! spent between two readings, and the gauges a system collector sets.

use vstd::prelude::*;
use crate::base::text::chars_of;
use crate::base::updates::{GaugeUpdate, GaugeUpdateView};

verus! {

/// What `char::is_whitespace` returns for `c`: whether it has Unicode's
/// White_Space property, which these code points have.
pub open spec fn is_whitespace(c: char) -> bool {
    ||| ('\u{9}' <= c && c <= '\u{d}')
    ||| c == ' '
    ||| c == '\u{85}'
    ||| c == '\u{a0}'
    ||| c == '\u{1680}'
    ||| ('\u{2000}' <= c && c <= '\u{200a}')
    ||| c == '\u{2028}'
    ||| c == '\u{2029}'
    ||| c == '\u{202f}'
    ||| c == '\u{205f}'
    ||| c == '\u{3000}'
}

fn char_is_whitespace(c: char) -> (r: bool)
    ensures
        r == is_whitespace(c),
{
    ('\u{9}' <= c && c <= '\u{d}') || c == ' ' || c == '\u{85}' || c == '\u{a0}' || c == '\u{1680}'
        || ('\u{2000}' <= c && c <= '\u{200a}') || c == '\u{2028}' || c == '\u{2029}' || c
        == '\u{202f}' || c == '\u{205f}' || c == '\u{3000}'
}

/// The words of `s` as `str::split_whitespace` gives them, the word being
/// built so far being `cur`: maximal runs of non-whitespace characters.
pub open spec fn words_from(s: Seq<char>, cur: Seq<char>) -> Seq<Seq<char>>
    decreases s.len(),
{
    if s.len() == 0 {
        if cur.len() > 0 {
            seq![cur]
        } else {
            seq![]
        }
    } else if is_whitespace(s[0]) {
        (if cur.len() > 0 {
            seq![cur]
        } else {
            seq![]
        }) + words_from(s.drop_first(), seq![])
    } else {
        words_from(s.drop_first(), cur.push(s[0]))
    }
}

/// The words of `s`.
pub open spec fn words(s: Seq<char>) -> Seq<Seq<char>> {
    words_from(s, seq![])
}

/// A line without the carriage return that ended it.
pub open spec fn strip_cr(l: Seq<char>) -> Seq<char> {
    if l.len() > 0 && l.last() == '\r' {
        l.drop_last()
    } else {
        l
    }
}

/// The lines of `s` as `str::lines` gives them, the line being built so far
/// being `cur`: split at each `\n` (dropping a `\r` before it), the last
/// line's ending optional.
pub open spec fn lines_from(s: Seq<char>, cur: Seq<char>) -> Seq<Seq<char>>
    decreases s.len(),
{
    if s.len() == 0 {
        if cur.len() > 0 {
            seq![cur]
        } else {
            seq![]
        }
    } else if s[0] == '\n' {
        seq![strip_cr(cur)] + lines_from(s.drop_first(), seq![])
    } else {
        lines_from(s.drop_first(), cur.push(s[0]))
    }
}

/// The lines of `s`.
pub open spec fn lines(s: Seq<char>) -> Seq<Seq<char>> {
    lines_from(s, seq![])
}

/// The number that the decimal digits `d` spell.
pub open spec fn digits_value(d: Seq<char>) -> nat
    decreases d.len(),
{
    if d.len() == 0 {
        0
    } else {
        digits_value(d.drop_last()) * 10 + (d.last() as nat - '0' as nat) as nat
    }
}

/// Every character of `d` is an ASCII digit.
pub open spec fn all_digits(d: Seq<char>) -> bool {
    forall|i: int| 0 <= i < d.len() ==> '0' <= #[trigger] d[i] <= '9'
}

/// What `str::parse::<u64>` gives: an optional `+`, then one or more ASCII
/// digits whose value fits in a `u64`.
pub open spec fn parse_u64_spec(s: Seq<char>) -> Option<u64> {
    let d = if s.len() > 0 && s[0] == '+' {
        s.drop_first()
    } else {
        s
    };
    if d.len() > 0 && all_digits(d) && digits_value(d) <= u64::MAX {
        Some(digits_value(d) as u64)
    } else {
        None
    }
}

proof fn lemma_digits_value_grows(d: Seq<char>, i: int)
    requires
        0 <= i <= d.len(),
        all_digits(d),
    ensures
        digits_value(d.take(i)) <= digits_value(d),
    decreases d.len() - i,
{
    if i < d.len() {
        lemma_digits_value_grows(d, i + 1);
        assert(d.take(i + 1).drop_last() =~= d.take(i));
    } else {
        assert(d.take(i) =~= d);
    }
}

/// Parse a decimal `u64` as `str::parse::<u64>` does.
pub fn parse_u64(s: &[char]) -> (r: Option<u64>)
    ensures
        r == parse_u64_spec(s@),
{
    let start: usize = if s.len() > 0 && s[0] == '+' {
        1
    } else {
        0
    };
    let ghost d = if s@.len() > 0 && s@[0] == '+' {
        s@.drop_first()
    } else {
        s@
    };
    assert(d =~= s@.skip(start as int));
    if start == s.len() {
        return None;
    }
    let mut value: u64 = 0;
    let mut i = start;
    while i < s.len()
        invariant
            start <= i <= s.len(),
            start < s.len(),
            d == s@.skip(start as int),
            d == (if s@.len() > 0 && s@[0] == '+' {
                s@.drop_first()
            } else {
                s@
            }),
            all_digits(d.take(i - start)),
            value == digits_value(d.take(i - start)),
        decreases s.len() - i,
    {
        let c = s[i];
        let k = i - start;
        assert(d.take(k + 1).drop_last() =~= d.take(k as int));
        assert(d[k as int] == c);
        if !('0' <= c && c <= '9') {
            assert(!all_digits(d));
            return None;
        }
        let digit = (c as u32 - '0' as u32) as u64;
        assert(digits_value(d.take(k + 1)) == value * 10 + digit);
        if value > 1_844_674_407_370_955_161 || (value == 1_844_674_407_370_955_161 && digit > 5) {
            proof {
                assert(all_digits(d.take(k + 1)));
                if all_digits(d) {
                    lemma_digits_value_grows(d, k + 1);
                }
            }
            return None;
        }
        value = value * 10 + digit;
        i = i + 1;
        assert(all_digits(d.take(i - start)));
    }
    assert(d.take(i - start) =~= d);
    Some(value)
}

/// The CPU times of the first line of `/proc/stat`, in clock ticks.
#[derive(Debug, Clone, Copy, PartialEq, Eq, Structural)]
pub struct CpuStat {
    pub user: u64,
    pub nice: u64,
    pub system: u64,
    pub idle: u64,
}

impl CpuStat {
    /// All time counted.
    pub open spec fn time_total(&self) -> int {
        self.user + self.nice + self.system + self.idle
    }

    /// The time not idle.
    pub open spec fn time_active(&self) -> int {
        self.user + self.nice + self.system
    }

    /// The four times add up within `u64`.
    pub open spec fn fits(&self) -> bool {
        self.time_total() <= u64::MAX
    }

    /// All time counted.
    pub fn total(&self) -> (r: u64)
        requires
            self.fits(),
        ensures
            r == self.user + self.nice + self.system + self.idle,
    {
        self.user + self.nice + self.system + self.idle
    }

    /// The time not idle.
    pub fn active(&self) -> (r: u64)
        requires
            self.fits(),
        ensures
            r == self.user + self.nice + self.system,
    {
        self.user + self.nice + self.system
    }

    /// Whether the four times add up within `u64`.
    pub fn check_fits(&self) -> (r: bool)
        ensures
            r == self.fits(),
    {
        match self.user.checked_add(self.nice) {
            None => false,
            Some(a) => match a.checked_add(self.system) {
                None => false,
                Some(b) => b.checked_add(self.idle).is_some(),
            },
        }
    }
}

/// A field of the CPU line: its number, or 0 when it does not parse.
pub open spec fn field_or_zero(w: Seq<char>) -> u64 {
    match parse_u64_spec(w) {
        Some(v) => v,
        None => 0,
    }
}

/// What the first line of `/proc/stat` gives: the times of its `cpu` line
/// when it is one with at least four numbers after the word `cpu`.
pub open spec fn proc_stat_spec(contents: Seq<char>) -> Option<CpuStat> {
    let ls = lines(contents);
    if ls.len() == 0 {
        None
    } else {
        let parts = words(ls[0]);
        if parts.len() > 4 && parts[0] == seq!['c', 'p', 'u'] {
            Some(
                CpuStat {
                    user: field_or_zero(parts[1]),
                    nice: field_or_zero(parts[2]),
                    system: field_or_zero(parts[3]),
                    idle: field_or_zero(parts[4]),
                },
            )
        } else {
            None
        }
    }
}

/// The first line of `s`, as a sequence of characters.
fn first_line(s: &Vec<char>) -> (r: Option<Vec<char>>)
    ensures
        lines(s@).len() == 0 ==> r is None,
        lines(s@).len() > 0 ==> (r matches Some(l) && l@ == lines(s@)[0]),
{
    let mut cur: Vec<char> = Vec::new();
    let mut i: usize = 0;
    assert(s@.skip(0) =~= s@);
    assert(cur@ =~= seq![]);
    while i < s.len()
        invariant
            i <= s.len(),
            lines(s@) == lines_from(s@.skip(i as int), cur@),
        decreases s.len() - i,
    {
        let c = s[i];
        assert(s@.skip(i as int).drop_first() =~= s@.skip(i + 1));
        if c == '\n' {
            assert(lines(s@)[0] == strip_cr(cur@));
            let ghost full = cur@;
            if cur.len() > 0 && cur[cur.len() - 1] == '\r' {
                cur.pop();
            }
            assert(cur@ =~= strip_cr(full));
            return Some(cur);
        }
        cur.push(c);
        i = i + 1;
    }
    assert(s@.skip(i as int) =~= Seq::<char>::empty());
    if cur.len() > 0 {
        Some(cur)
    } else {
        None
    }
}

/// The words of `s`, in order.
fn split_words(s: &Vec<char>) -> (r: Vec<Vec<char>>)
    ensures
        r@.map_values(|w: Vec<char>| w@) == words(s@),
{
    let mut out: Vec<Vec<char>> = Vec::new();
    let mut cur: Vec<char> = Vec::new();
    let mut i: usize = 0;
    assert(s@.skip(0) =~= s@);
    assert(cur@ =~= seq![]);
    assert(out@.map_values(|w: Vec<char>| w@) + words_from(s@, cur@) =~= words_from(s@, cur@));
    while i < s.len()
        invariant
            i <= s.len(),
            words(s@) == out@.map_values(|w: Vec<char>| w@) + words_from(s@.skip(i as int), cur@),
        decreases s.len() - i,
    {
        let c = s[i];
        assert(s@.skip(i as int).drop_first() =~= s@.skip(i + 1));
        let ghost before = out@.map_values(|w: Vec<char>| w@);
        let ghost rest = s@.skip(i + 1);
        if char_is_whitespace(c) {
            if cur.len() > 0 {
                let mut w: Vec<char> = Vec::new();
                std::mem::swap(&mut w, &mut cur);
                let ghost wv = w@;
                out.push(w);
                assert(out@.map_values(|w: Vec<char>| w@) =~= before + seq![wv]);
                assert(before + (seq![wv] + words_from(rest, seq![])) =~= (before + seq![wv])
                    + words_from(rest, seq![]));
            } else {
                assert(seq![] + words_from(rest, seq![]) =~= words_from(rest, seq![]));
            }
            assert(cur@ =~= seq![]);
        } else {
            cur.push(c);
        }
        i = i + 1;
    }
    assert(s@.skip(i as int) =~= Seq::<char>::empty());
    if cur.len() > 0 {
        let ghost before = out@.map_values(|w: Vec<char>| w@);
        let ghost wv = cur@;
        out.push(cur);
        assert(out@.map_values(|w: Vec<char>| w@) =~= before + seq![wv]);
    } else {
        assert(out@.map_values(|w: Vec<char>| w@) =~= words(s@));
    }
    out
}

fn number_or_zero(w: &Vec<char>) -> (r: u64)
    ensures
        r == field_or_zero(w@),
{
    match parse_u64(w.as_slice()) {
        Some(v) => v,
        None => 0,
    }
}

/// Read the CPU times from the contents of `/proc/stat`: those of its first
/// line when that is a `cpu` line with at least four numbers (fields that
/// do not parse count as 0).
pub fn parse_proc_stat(contents: &str) -> (r: Option<CpuStat>)
    ensures
        r == proc_stat_spec(contents@),
{
    let cs = chars_of(contents);
    let line = match first_line(&cs) {
        Some(l) => l,
        None => {
            return None;
        },
    };
    let parts = split_words(&line);
    let ghost ps = parts@.map_values(|w: Vec<char>| w@);
    if parts.len() > 4 {
        let p0 = &parts[0];
        assert(ps[0] == p0@);
        if p0.len() == 3 && p0[0] == 'c' && p0[1] == 'p' && p0[2] == 'u' {
            assert(p0@ =~= seq!['c', 'p', 'u']);
            assert(ps[1] == parts@[1]@ && ps[2] == parts@[2]@ && ps[3] == parts@[3]@ && ps[4]
                == parts@[4]@);
            return Some(
                CpuStat {
                    user: number_or_zero(&parts[1]),
                    nice: number_or_zero(&parts[2]),
                    system: number_or_zero(&parts[3]),
                    idle: number_or_zero(&parts[4]),
                },
            );
        }
        assert(p0@ != seq!['c', 'p', 'u']);
    }
    None
}

/// The active and total time between the readings `prev` and `cur`
/// (saturating at 0); (0, 0) without a previous reading.  The CPU usage is
/// the first over the second, 0 when the second is 0.
pub fn cpu_deltas(prev: Option<CpuStat>, cur: CpuStat) -> (r: (u64, u64))
    requires
        cur.fits(),
        prev matches Some(p) ==> p.fits(),
    ensures
        prev is None ==> r == (0u64, 0u64),
        prev matches Some(p) ==> r == (
            (if cur.time_active() >= p.time_active() {
                cur.time_active() - p.time_active()
            } else {
                0
            }) as u64,
            (if cur.time_total() >= p.time_total() {
                cur.time_total() - p.time_total()
            } else {
                0
            }) as u64,
        ),
{
    match prev {
        None => (0, 0),
        Some(p) => {
            let total_delta = cur.total().saturating_sub(p.total());
            let active_delta = cur.active().saturating_sub(p.active());
            (active_delta, total_delta)
        },
    }
}

/// Whether line `l` starts with `prefix`.
pub open spec fn starts_with(l: Seq<char>, prefix: Seq<char>) -> bool {
    l.len() >= prefix.len() && l.take(prefix.len() as int) == prefix
}

/// The totals `(total, available)` after the line `l` of `/proc/meminfo`,
/// from the totals `acc` before it: a `MemTotal:` or `MemAvailable:` line
/// with a second word sets its value to that word's number (0 when it does
/// not parse) times 1024, or gives `None` when that exceeds `u64`.
pub open spec fn meminfo_line(acc: (u64, u64), l: Seq<char>) -> Option<(u64, u64)> {
    let ws = words(l);
    let is_total = starts_with(l, "MemTotal:"@);
    let is_avail = !is_total && starts_with(l, "MemAvailable:"@);
    if (is_total || is_avail) && ws.len() > 1 {
        let v = field_or_zero(ws[1]) * 1024;
        if v > u64::MAX {
            None
        } else if is_total {
            Some((v as u64, acc.1))
        } else {
            Some((acc.0, v as u64))
        }
    } else {
        Some(acc)
    }
}

/// The totals `(total, available)` that the lines `ls` give in turn,
/// starting from zero.
pub open spec fn meminfo_fold(ls: Seq<Seq<char>>) -> Option<(u64, u64)>
    decreases ls.len(),
{
    if ls.len() == 0 {
        Some((0u64, 0u64))
    } else {
        match meminfo_fold(ls.drop_last()) {
            None => None,
            Some(acc) => meminfo_line(acc, ls.last()),
        }
    }
}

/// What `/proc/meminfo` gives: `(used, total)` in bytes, used being the
/// total less the available memory (0 if that is more).
pub open spec fn meminfo_spec(contents: Seq<char>) -> Option<(u64, u64)> {
    match meminfo_fold(lines(contents)) {
        None => None,
        Some(acc) => Some(((if acc.0 >= acc.1 { acc.0 - acc.1 } else { 0 }) as u64, acc.0)),
    }
}

fn has_prefix(l: &Vec<char>, prefix: &str) -> (r: bool)
    ensures
        r == starts_with(l@, prefix@),
{
    let p = chars_of(prefix);
    if l.len() < p.len() {
        return false;
    }
    let mut i: usize = 0;
    while i < p.len()
        invariant
            i <= p.len() <= l.len(),
            p@ == prefix@,
            l@.take(i as int) == p@.take(i as int),
        decreases p.len() - i,
    {
        if l[i] != p[i] {
            assert(l@.take(p.len() as int)[i as int] != p@[i as int]);
            return false;
        }
        assert(l@.take(i + 1) =~= p@.take(i + 1));
        i = i + 1;
    }
    assert(p@.take(i as int) =~= p@);
    true
}

/// Apply one line of `/proc/meminfo` to the totals read so far.
fn meminfo_step(acc: (u64, u64), l: &Vec<char>) -> (r: Option<(u64, u64)>)
    ensures
        r == meminfo_line(acc, l@),
{
    let is_total = has_prefix(l, "MemTotal:");
    let is_avail = !is_total && has_prefix(l, "MemAvailable:");
    if is_total || is_avail {
        let ws = split_words(l);
        if ws.len() > 1 {
            assert(words(l@)[1] == ws@[1]@);
            let v = number_or_zero(&ws[1]);
            if v > 18_014_398_509_481_983 {
                return None;
            }
            let bytes = v * 1024;
            if is_total {
                return Some((bytes, acc.1));
            } else {
                return Some((acc.0, bytes));
            }
        }
    }
    Some(acc)
}

/// The lines of `s`, in order.
fn split_lines(s: &Vec<char>) -> (r: Vec<Vec<char>>)
    ensures
        r@.map_values(|l: Vec<char>| l@) == lines(s@),
{
    let mut out: Vec<Vec<char>> = Vec::new();
    let mut cur: Vec<char> = Vec::new();
    let mut i: usize = 0;
    assert(s@.skip(0) =~= s@);
    assert(cur@ =~= seq![]);
    assert(out@.map_values(|l: Vec<char>| l@) + lines_from(s@, cur@) =~= lines_from(s@, cur@));
    while i < s.len()
        invariant
            i <= s.len(),
            lines(s@) == out@.map_values(|l: Vec<char>| l@) + lines_from(s@.skip(i as int), cur@),
        decreases s.len() - i,
    {
        let c = s[i];
        assert(s@.skip(i as int).drop_first() =~= s@.skip(i + 1));
        let ghost before = out@.map_values(|l: Vec<char>| l@);
        let ghost rest = s@.skip(i + 1);
        if c == '\n' {
            let ghost full = cur@;
            if cur.len() > 0 && cur[cur.len() - 1] == '\r' {
                cur.pop();
            }
            assert(cur@ =~= strip_cr(full));
            let mut l: Vec<char> = Vec::new();
            std::mem::swap(&mut l, &mut cur);
            let ghost lv = l@;
            out.push(l);
            assert(out@.map_values(|l: Vec<char>| l@) =~= before + seq![lv]);
            assert(before + (seq![lv] + lines_from(rest, seq![])) =~= (before + seq![lv])
                + lines_from(rest, seq![]));
            assert(cur@ =~= seq![]);
        } else {
            cur.push(c);
        }
        i = i + 1;
    }
    assert(s@.skip(i as int) =~= Seq::<char>::empty());
    if cur.len() > 0 {
        let ghost before = out@.map_values(|l: Vec<char>| l@);
        let ghost lv = cur@;
        out.push(cur);
        assert(out@.map_values(|l: Vec<char>| l@) =~= before + seq![lv]);
    } else {
        assert(out@.map_values(|l: Vec<char>| l@) =~= lines(s@));
    }
    out
}

/// Read `(used, total)` memory in bytes from the contents of
/// `/proc/meminfo`; `None` when a value in kilobytes is too large to give
/// its bytes in a `u64`.
pub fn parse_meminfo(contents: &str) -> (r: Option<(u64, u64)>)
    ensures
        r == meminfo_spec(contents@),
{
    let cs = chars_of(contents);
    let ls = split_lines(&cs);
    let ghost lv = ls@.map_values(|l: Vec<char>| l@);
    let mut acc: (u64, u64) = (0, 0);
    let n = ls.len();
    for i in 0..n
        invariant
            n == ls.len(),
            lv == ls@.map_values(|l: Vec<char>| l@),
            lv == lines(contents@),
            meminfo_fold(lv.take(i as int)) == Some(acc),
    {
        assert(lv.take(i + 1).drop_last() =~= lv.take(i as int));
        assert(lv.take(i + 1).last() == ls@[i as int]@);
        match meminfo_step(acc, &ls[i]) {
            None => {
                proof {
                    assert(meminfo_fold(lv.take(i + 1)) is None);
                    lemma_fold_stays_none(lv, i + 1);
                }
                return None;
            },
            Some(next) => {
                acc = next;
            },
        }
    }
    assert(lv.take(n as int) =~= lv);
    let used = acc.0.saturating_sub(acc.1);
    Some((used, acc.0))
}

proof fn lemma_fold_stays_none(ls: Seq<Seq<char>>, i: int)
    requires
        0 <= i <= ls.len(),
        meminfo_fold(ls.take(i)) is None,
    ensures
        meminfo_fold(ls) is None,
    decreases ls.len() - i,
{
    if i < ls.len() {
        assert(ls.take(i + 1).drop_last() =~= ls.take(i));
        lemma_fold_stays_none(ls, i + 1);
    } else {
        assert(ls.take(i) =~= ls);
    }
}

/// The gauge updates of a system collector: the CPU usage (percent) when
/// it could be read, the used and total memory when they could be read,
/// and the uptime in seconds.
pub open spec fn system_updates_view(cpu_percent: Option<i64>, memory: Option<(u64, u64)>, uptime: u64) -> Seq<
    GaugeUpdateView,
> {
    (match cpu_percent {
        Some(c) => seq![GaugeUpdateView { name: "system_cpu_usage_percent"@, labels: Seq::empty(), value: c }],
        None => seq![],
    }) + (match memory {
        Some(m) => seq![
            GaugeUpdateView { name: "system_memory_usage_bytes"@, labels: Seq::empty(), value: m.0 as i64 },
            GaugeUpdateView { name: "system_memory_total_bytes"@, labels: Seq::empty(), value: m.1 as i64 },
        ],
        None => seq![],
    }) + seq![
        GaugeUpdateView { name: "system_uptime_seconds"@, labels: Seq::empty(), value: uptime as i64 },
    ]
}

/// The gauge updates of a system collector's collection.
pub fn system_updates(cpu_percent: Option<i64>, memory: Option<(u64, u64)>, uptime: u64) -> (r: Vec<
    GaugeUpdate,
>)
    ensures
        r@.map_values(|u: GaugeUpdate| u@) == system_updates_view(cpu_percent, memory, uptime),
{
    let mut r: Vec<GaugeUpdate> = Vec::new();
    match cpu_percent {
        Some(c) => r.push(GaugeUpdate::plain("system_cpu_usage_percent", c)),
        None => {},
    }
    match memory {
        Some(m) => {
            r.push(GaugeUpdate::plain("system_memory_usage_bytes", m.0 as i64));
            r.push(GaugeUpdate::plain("system_memory_total_bytes", m.1 as i64));
        },
        None => {},
    }
    r.push(GaugeUpdate::plain("system_uptime_seconds", uptime as i64));
    assert(r@.map_values(|u: GaugeUpdate| u@) =~= system_updates_view(cpu_percent, memory, uptime));
    r
}

} // verus!
