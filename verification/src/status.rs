//! The daemon's status report: the text the control socket answers to
//! `status`, and the reading of that text back into its fields.
use vstd::prelude::*;
use crate::text::{
    chars_of, lemma_split_nonempty, spec_split, split_str, starts_with, str_eq, string_from_range,
    trim_ws, trim_ws_bounds, views_of,
};

verus! {

/// The fields of a status report.
#[derive(Debug, Clone)]
pub struct DaemonStatus {
    pub paused: bool,
    pub watch_directory: String,
    pub config_file: String,
    pub active_backends: Vec<String>,
    pub failed_backends: Vec<String>,
    pub syncing: bool,
    pub web_ui_address: String,
}

pub struct StatusView {
    pub paused: bool,
    pub watch_directory: Seq<char>,
    pub config_file: Seq<char>,
    pub active_backends: Seq<Seq<char>>,
    pub failed_backends: Seq<Seq<char>>,
    pub syncing: bool,
    pub web_ui_address: Seq<char>,
}

impl View for DaemonStatus {
    type V = StatusView;

    open spec fn view(&self) -> StatusView {
        StatusView {
            paused: self.paused,
            watch_directory: self.watch_directory@,
            config_file: self.config_file@,
            active_backends: views_of(self.active_backends@),
            failed_backends: views_of(self.failed_backends@),
            syncing: self.syncing,
            web_ui_address: self.web_ui_address@,
        }
    }
}

/// `s` with every leading repetition of `pat` removed (`str::trim_start_matches`).
pub open spec fn strip_all(s: Seq<char>, pat: Seq<char>) -> Seq<char>
    decreases s.len(),
{
    if pat.len() > 0 && s.len() >= pat.len() && s.take(pat.len() as int) == pat {
        strip_all(s.skip(pat.len() as int), pat)
    } else {
        s
    }
}

/// One leading and one trailing double quote removed, when present.
pub open spec fn strip_quotes(s: Seq<char>) -> Seq<char> {
    let a = if s.len() > 0 && s[0] == '"' { s.drop_first() } else { s };
    if a.len() > 0 && a.last() == '"' { a.drop_last() } else { a }
}

/// The value after a key: repeated keys, surrounding white space and quotes removed.
pub open spec fn field_value(line: Seq<char>, key: Seq<char>) -> Seq<char> {
    strip_quotes(trim_ws(strip_all(line, key)))
}

/// Whether a field reads as `true`.
pub open spec fn field_flag(line: Seq<char>, key: Seq<char>) -> bool {
    trim_ws(strip_all(line, key)) == "true"@
}

/// The cleaned, non-empty entries of a comma-separated list.
pub open spec fn clean_items(parts: Seq<Seq<char>>) -> Seq<Seq<char>>
    decreases parts.len(),
{
    if parts.len() == 0 {
        Seq::empty()
    } else {
        let c = strip_quotes(trim_ws(parts.last()));
        if c.len() > 0 {
            clean_items(parts.drop_last()).push(c)
        } else {
            clean_items(parts.drop_last())
        }
    }
}

/// The entries of a bracketed list after a key (none when it is not bracketed).
pub open spec fn field_list(line: Seq<char>, key: Seq<char>) -> Seq<Seq<char>> {
    let l = trim_ws(strip_all(line, key));
    if l.len() > 0 && l[0] == '[' && l.last() == ']' {
        clean_items(spec_split(l.subrange(1, l.len() - 1), ','))
    } else {
        Seq::empty()
    }
}

pub open spec fn starts(s: Seq<char>, p: Seq<char>) -> bool {
    p.len() <= s.len() && s.take(p.len() as int) == p
}

/// The effect of one line on the fields read so far.
pub open spec fn apply_line(st: StatusView, line: Seq<char>) -> StatusView {
    if starts(line, "Paused: "@) {
        StatusView { paused: field_flag(line, "Paused: "@), ..st }
    } else if starts(line, "Watch Directory: "@) {
        StatusView { watch_directory: field_value(line, "Watch Directory: "@), ..st }
    } else if starts(line, "Config File: "@) {
        StatusView { config_file: field_value(line, "Config File: "@), ..st }
    } else if starts(line, "Active Backends: "@) {
        StatusView { active_backends: st.active_backends + field_list(line, "Active Backends: "@), ..st }
    } else if starts(line, "Failed Backends: "@) {
        StatusView { failed_backends: st.failed_backends + field_list(line, "Failed Backends: "@), ..st }
    } else if starts(line, "Syncing: "@) {
        StatusView { syncing: field_flag(line, "Syncing: "@), ..st }
    } else if starts(line, "Web UI Address: "@) {
        StatusView { web_ui_address: field_value(line, "Web UI Address: "@), ..st }
    } else {
        st
    }
}

pub open spec fn empty_status() -> StatusView {
    StatusView {
        paused: false,
        watch_directory: Seq::empty(),
        config_file: Seq::empty(),
        active_backends: Seq::empty(),
        failed_backends: Seq::empty(),
        syncing: false,
        web_ui_address: Seq::empty(),
    }
}

/// The fields read from a sequence of lines, in order.
pub open spec fn parse_lines(lines: Seq<Seq<char>>) -> StatusView
    decreases lines.len(),
{
    if lines.len() == 0 {
        empty_status()
    } else {
        apply_line(parse_lines(lines.drop_last()), lines.last())
    }
}

/// A line without its `\r`.
pub open spec fn strip_cr(s: Seq<char>) -> Seq<char> {
    if s.len() > 0 && s.last() == '\r' { s.drop_last() } else { s }
}

/// The lines of a text (`str::lines`): pieces between `\n`, each ended line
/// losing a trailing `\r`, and no line after a final `\n`.
pub open spec fn spec_lines(s: Seq<char>) -> Seq<Seq<char>> {
    let parts = spec_split(s, '\n');
    let ended = parts.drop_last().map_values(|p: Seq<char>| strip_cr(p));
    if parts.last().len() == 0 { ended } else { ended.push(parts.last()) }
}

/// The status fields a report holds.
pub open spec fn spec_parse_status(raw: Seq<char>) -> StatusView {
    parse_lines(spec_lines(raw))
}

} // verus!

verus! {

/// Whether `cs[i..]` begins with `key`.
fn occurs_at(cs: &[char], i: usize, key: &[char]) -> (b: bool)
    requires
        i <= cs@.len(),
    ensures
        b == starts(cs@.skip(i as int), key@),
{
    let cl = cs.len();
    if key.len() > cl - i {
        return false;
    }
    let mut k: usize = 0;
    while k < key.len()
        invariant
            k <= key@.len() <= cs@.len() - i,
            cl == cs@.len(),
            i <= cs@.len(),
            forall|x: int| 0 <= x < k ==> cs@[i + x] == key@[x],
        decreases key.len() - k,
    {
        assert(i + k < cl);
        if cs[i + k] != key[k] {
            assert(cs@.skip(i as int).take(key@.len() as int)[k as int] != key@[k as int]);
            return false;
        }
        k = k + 1;
    }
    assert(cs@.skip(i as int).take(key@.len() as int) =~= key@);
    true
}

/// Start of `strip_all(cs[lo..], key)`.
fn strip_all_index(cs: &[char], lo: usize, key: &[char]) -> (i: usize)
    requires
        lo <= cs@.len(),
        key@.len() > 0,
    ensures
        lo <= i <= cs@.len(),
        strip_all(cs@.skip(lo as int), key@) == cs@.skip(i as int),
{
    let cl = cs.len();
    let mut i = lo;
    while occurs_at(cs, i, key)
        invariant
            lo <= i <= cs@.len(),
            cl == cs@.len(),
            key@.len() > 0,
            strip_all(cs@.skip(lo as int), key@) == strip_all(cs@.skip(i as int), key@),
        decreases cs@.len() - i,
    {
        assert(cs@.skip(i as int).skip(key@.len() as int) =~= cs@.skip(i + key@.len()));
        assert(i + key@.len() <= cl);
        i = i + key.len();
    }
    i
}

/// Bounds of `trim_ws(strip_all(line, key))` within the line's characters.
fn value_bounds(cs: &[char], key: &[char]) -> (r: (usize, usize))
    requires
        key@.len() > 0,
    ensures
        r.0 <= r.1 <= cs@.len(),
        trim_ws(strip_all(cs@, key@)) == cs@.subrange(r.0 as int, r.1 as int),
{
    let i = strip_all_index(cs, 0, key);
    assert(cs@.skip(0) =~= cs@);
    assert(cs@.skip(i as int) =~= cs@.subrange(i as int, cs@.len() as int));
    trim_ws_bounds(cs, i, cs.len())
}

/// Bounds of `strip_quotes(cs[a..b])`.
fn unquote_bounds(cs: &[char], a: usize, b: usize) -> (r: (usize, usize))
    requires
        a <= b <= cs@.len(),
    ensures
        a <= r.0 <= r.1 <= b,
        strip_quotes(cs@.subrange(a as int, b as int)) == cs@.subrange(r.0 as int, r.1 as int),
{
    let a2 = if a < b && cs[a] == '"' { a + 1 } else { a };
    assert(a2 > a ==> cs@.subrange(a as int, b as int).drop_first() =~= cs@.subrange(a2 as int, b as int));
    let b2 = if a2 < b && cs[b - 1] == '"' { b - 1 } else { b };
    assert(b2 < b ==> cs@.subrange(a2 as int, b as int).drop_last() =~= cs@.subrange(a2 as int, b2 as int));
    (a2, b2)
}

fn read_flag(cs: &[char], key: &[char]) -> (f: bool)
    requires
        key@.len() > 0,
    ensures
        f == (trim_ws(strip_all(cs@, key@)) == "true"@),
{
    let (a, b) = value_bounds(cs, key);
    let t = string_from_range(cs, a, b);
    str_eq(t.as_str(), "true")
}

fn read_value(cs: &[char], key: &[char]) -> (v: String)
    requires
        key@.len() > 0,
    ensures
        v@ == strip_quotes(trim_ws(strip_all(cs@, key@))),
{
    let (a, b) = value_bounds(cs, key);
    let (c, d) = unquote_bounds(cs, a, b);
    string_from_range(cs, c, d)
}

/// Appends the cleaned non-empty entries of `parts` to `out`.
fn push_clean_items(out: &mut Vec<String>, parts: &Vec<String>)
    ensures
        views_of(final(out)@) == views_of(old(out)@) + clean_items(views_of(parts@)),
{
    let mut i: usize = 0;
    while i < parts.len()
        invariant
            i <= parts@.len(),
            views_of(out@) == views_of(old(out)@) + clean_items(views_of(parts@).take(i as int)),
        decreases parts.len() - i,
    {
        let cs = chars_of(parts[i].as_str());
        assert(cs@.subrange(0, cs@.len() as int) =~= cs@);
        let (a, b) = trim_ws_bounds(cs.as_slice(), 0, cs.len());
        let (c, d) = unquote_bounds(cs.as_slice(), a, b);
        let ghost before = views_of(out@);
        proof {
            assert(views_of(parts@).take(i as int + 1).drop_last() =~= views_of(parts@).take(i as int));
            assert(views_of(parts@).take(i as int + 1).last() == parts@[i as int]@);
        }
        if c < d {
            out.push(string_from_range(cs.as_slice(), c, d));
            assert(views_of(out@) =~= before.push(out@.last()@));
        }
        i = i + 1;
    }
    assert(views_of(parts@).take(parts.len() as int) =~= views_of(parts@));
}

fn read_list(out: &mut Vec<String>, cs: &[char], key: &[char])
    requires
        key@.len() > 0,
    ensures
        views_of(final(out)@) == views_of(old(out)@) + field_list(cs@, key@),
{
    let (a, b) = value_bounds(cs, key);
    if a < b && cs[a] == '[' && cs[b - 1] == ']' {
        assert(b - a >= 2);
        let parts = crate::text::split_chars(cs, a + 1, b - 1, ',');
        assert(cs@.subrange(a as int, b as int).subrange(1, (b - a) - 1) =~= cs@.subrange(a + 1, b - 1));
        push_clean_items(out, &parts);
    } else {
        assert(views_of(out@) =~= views_of(out@) + Seq::<Seq<char>>::empty());
    }
}

fn keyed(line: &[char], key: &str) -> (r: (bool, Vec<char>))
    ensures
        r.1@ == key@,
        r.0 == starts(line@, key@),
{
    let k = chars_of(key);
    let b = occurs_at(line, 0, k.as_slice());
    assert(line@.skip(0) =~= line@);
    (b, k)
}

/// Applies one line of a report to the fields read so far.
pub fn apply_status_line(st: &mut DaemonStatus, line: &[char])
    ensures
        final(st)@ == apply_line(old(st)@, line@),
{
    proof {
        reveal_strlit("Paused: ");
        reveal_strlit("Watch Directory: ");
        reveal_strlit("Config File: ");
        reveal_strlit("Active Backends: ");
        reveal_strlit("Failed Backends: ");
        reveal_strlit("Syncing: ");
        reveal_strlit("Web UI Address: ");
    }
    let (hit, k) = keyed(line, "Paused: ");
    if hit {
        st.paused = read_flag(line, k.as_slice());
        return;
    }
    let (hit, k) = keyed(line, "Watch Directory: ");
    if hit {
        st.watch_directory = read_value(line, k.as_slice());
        return;
    }
    let (hit, k) = keyed(line, "Config File: ");
    if hit {
        st.config_file = read_value(line, k.as_slice());
        return;
    }
    let (hit, k) = keyed(line, "Active Backends: ");
    if hit {
        read_list(&mut st.active_backends, line, k.as_slice());
        return;
    }
    let (hit, k) = keyed(line, "Failed Backends: ");
    if hit {
        read_list(&mut st.failed_backends, line, k.as_slice());
        return;
    }
    let (hit, k) = keyed(line, "Syncing: ");
    if hit {
        st.syncing = read_flag(line, k.as_slice());
        return;
    }
    let (hit, k) = keyed(line, "Web UI Address: ");
    if hit {
        st.web_ui_address = read_value(line, k.as_slice());
        return;
    }
}

/// An empty report reads as the defaults: not paused, not syncing, empty
/// texts and no backends.
pub proof fn law_empty_report_reads_as_defaults()
    ensures
        spec_parse_status(Seq::empty()) == empty_status(),
{
    let parts = spec_split(Seq::<char>::empty(), '\n');
    assert(parts =~= seq![Seq::<char>::empty()]);
    let ended = parts.drop_last().map_values(|p: Seq<char>| strip_cr(p));
    assert(ended =~= Seq::<Seq<char>>::empty());
    assert(spec_lines(Seq::empty()) =~= Seq::<Seq<char>>::empty());
}

/// Every entry of a cleaned list is non-empty.
proof fn lemma_clean_items_nonempty(parts: Seq<Seq<char>>)
    ensures
        forall|i: int| 0 <= i < clean_items(parts).len() ==> (#[trigger] clean_items(parts)[i]).len() > 0,
    decreases parts.len(),
{
    if parts.len() > 0 {
        lemma_clean_items_nonempty(parts.drop_last());
        let rest = clean_items(parts.drop_last());
        let c = strip_quotes(trim_ws(parts.last()));
        assert forall|i: int| 0 <= i < clean_items(parts).len() implies (#[trigger] clean_items(parts)[i]).len() > 0 by {
            if c.len() > 0 {
                assert(clean_items(parts) == rest.push(c));
                if i < rest.len() {
                    assert(clean_items(parts)[i] == rest[i]);
                }
            }
        }
    }
}

/// Every backend a list of lines names is a non-empty text.
proof fn lemma_listed_names_nonempty(lines: Seq<Seq<char>>)
    ensures
        forall|i: int| 0 <= i < parse_lines(lines).active_backends.len()
            ==> (#[trigger] parse_lines(lines).active_backends[i]).len() > 0,
        forall|i: int| 0 <= i < parse_lines(lines).failed_backends.len()
            ==> (#[trigger] parse_lines(lines).failed_backends[i]).len() > 0,
    decreases lines.len(),
{
    if lines.len() > 0 {
        let prev = parse_lines(lines.drop_last());
        let line = lines.last();
        lemma_listed_names_nonempty(lines.drop_last());
        let la = trim_ws(strip_all(line, "Active Backends: "@));
        let lf = trim_ws(strip_all(line, "Failed Backends: "@));
        lemma_clean_items_nonempty(spec_split(la.subrange(1, la.len() - 1), ','));
        lemma_clean_items_nonempty(spec_split(lf.subrange(1, lf.len() - 1), ','));
        let st = parse_lines(lines);
        assert forall|i: int| 0 <= i < st.active_backends.len() implies (#[trigger] st.active_backends[i]).len() > 0 by {
            if i >= prev.active_backends.len() && st.active_backends != prev.active_backends {
                assert(st.active_backends == prev.active_backends + field_list(line, "Active Backends: "@));
            }
        }
        assert forall|i: int| 0 <= i < st.failed_backends.len() implies (#[trigger] st.failed_backends[i]).len() > 0 by {
            if i >= prev.failed_backends.len() && st.failed_backends != prev.failed_backends {
                assert(st.failed_backends == prev.failed_backends + field_list(line, "Failed Backends: "@));
            }
        }
    }
}

/// Whatever the text, the backends a report is read to name are non-empty texts.
pub proof fn law_listed_backends_are_named(raw: Seq<char>)
    ensures
        forall|i: int| 0 <= i < spec_parse_status(raw).active_backends.len()
            ==> (#[trigger] spec_parse_status(raw).active_backends[i]).len() > 0,
        forall|i: int| 0 <= i < spec_parse_status(raw).failed_backends.len()
            ==> (#[trigger] spec_parse_status(raw).failed_backends[i]).len() > 0,
{
    lemma_listed_names_nonempty(spec_lines(raw));
}

/// Reads a status report into its fields.
pub fn parse_status(raw: &str) -> (st: DaemonStatus)
    ensures
        st@ == spec_parse_status(raw@),
{
    let mut st = DaemonStatus {
        paused: false,
        watch_directory: String::new(),
        config_file: String::new(),
        active_backends: Vec::new(),
        failed_backends: Vec::new(),
        syncing: false,
        web_ui_address: String::new(),
    };
    assert(st@.active_backends =~= Seq::<Seq<char>>::empty());
    assert(st@.failed_backends =~= Seq::<Seq<char>>::empty());
    let parts = split_str(raw, '\n');
    let ghost pv = views_of(parts@);
    proof { lemma_split_nonempty(raw@, '\n'); }
    let n = parts.len();
    let ghost ended = pv.drop_last().map_values(|p: Seq<char>| strip_cr(p));
    let mut i: usize = 0;
    while i + 1 < n
        invariant
            n == parts@.len() >= 1,
            i + 1 <= n,
            pv == views_of(parts@),
            pv == spec_split(raw@, '\n'),
            ended == pv.drop_last().map_values(|p: Seq<char>| strip_cr(p)),
            st@ == parse_lines(ended.take(i as int)),
        decreases n - i,
    {
        let cs = chars_of(parts[i].as_str());
        let len = cs.len();
        let end = if len > 0 && cs[len - 1] == '\r' { len - 1 } else { len };
        let mut line: Vec<char> = Vec::new();
        let mut x: usize = 0;
        while x < end
            invariant
                x <= end <= cs@.len(),
                line@ == cs@.take(x as int),
            decreases end - x,
        {
            line.push(cs[x]);
            assert(cs@.take(x as int + 1) =~= cs@.take(x as int).push(cs@[x as int]));
            x = x + 1;
        }
        proof {
            assert(pv[i as int] == parts@[i as int]@);
            assert(line@ == strip_cr(pv[i as int]));
            assert(ended.take(i as int + 1).drop_last() =~= ended.take(i as int));
            assert(ended.take(i as int + 1).last() == ended[i as int]);
        }
        apply_status_line(&mut st, line.as_slice());
        i = i + 1;
    }
    assert(ended.take(i as int) =~= ended);
    let last = chars_of(parts[n - 1].as_str());
    assert(pv.last() == parts@[n - 1]@);
    if last.len() > 0 {
        apply_status_line(&mut st, last.as_slice());
        assert(ended.push(pv.last()).drop_last() =~= ended);
    }
    st
}

} // verus!

verus! {

/// How `{:?}` renders a string: quoted, with special characters escaped.
pub uninterp spec fn debug_escaped(s: Seq<char>) -> Seq<char>;

/// Printable ASCII other than the quote and the backslash: `{:?}` leaves such text as it is.
pub open spec fn plain_text(s: Seq<char>) -> bool {
    forall|i: int| 0 <= i < s.len() ==> ' ' <= #[trigger] s[i] <= '~' && s[i] != '"' && s[i] != '\\'
}

/// The `Debug` rendering of a string slice (`format!("{:?}", s)`): the text
/// between double quotes, with quotes, backslashes and characters that are not
/// printable escaped. For printable ASCII other than those two, the documented
/// rendering is the text itself between quotes, which the second clause states.
#[verifier::external_body]
fn debug_quoted(s: &str) -> (r: String)
    ensures
        r@ == debug_escaped(s@),
        plain_text(s@) ==> r@ == seq!['"'] + s@ + seq!['"'],
{
    format!("{:?}", s)
}

pub open spec fn bool_text(b: bool) -> Seq<char> {
    if b { "true"@ } else { "false"@ }
}

/// The entries rendered with `{:?}` and separated by `", "`.
pub open spec fn join_debug(names: Seq<Seq<char>>) -> Seq<char>
    decreases names.len(),
{
    if names.len() == 0 {
        Seq::empty()
    } else if names.len() == 1 {
        debug_escaped(names[0])
    } else {
        join_debug(names.drop_last()) + ", "@ + debug_escaped(names.last())
    }
}

/// `{:?}` of a list of strings.
pub open spec fn debug_list(names: Seq<Seq<char>>) -> Seq<char> {
    "["@ + join_debug(names) + "]"@
}

/// A text between double quotes.
pub open spec fn quoted(s: Seq<char>) -> Seq<char> {
    seq!['"'] + s + seq!['"']
}

/// The entries quoted and separated by `", "`.
pub open spec fn join_quoted(names: Seq<Seq<char>>) -> Seq<char>
    decreases names.len(),
{
    if names.len() == 0 {
        Seq::empty()
    } else if names.len() == 1 {
        quoted(names[0])
    } else {
        join_quoted(names.drop_last()) + ", "@ + quoted(names.last())
    }
}

pub open spec fn all_plain(names: Seq<Seq<char>>) -> bool {
    forall|i: int| 0 <= i < names.len() ==> plain_text(#[trigger] names[i])
}

/// `{:?}` renders each entry as the entry between quotes.
pub open spec fn renders_quoted(names: Seq<Seq<char>>) -> bool {
    forall|i: int| 0 <= i < names.len() ==> debug_escaped(#[trigger] names[i]) == quoted(names[i])
}

proof fn lemma_join_quoted(names: Seq<Seq<char>>)
    requires
        renders_quoted(names),
    ensures
        join_debug(names) == join_quoted(names),
    decreases names.len(),
{
    if names.len() > 1 {
        assert(renders_quoted(names.drop_last())) by {
            assert forall|i: int| 0 <= i < names.drop_last().len() implies
                debug_escaped(#[trigger] names.drop_last()[i]) == quoted(names.drop_last()[i]) by {
                assert(names.drop_last()[i] == names[i]);
            }
        }
        lemma_join_quoted(names.drop_last());
        assert(debug_escaped(names[names.len() - 1]) == quoted(names[names.len() - 1]));
    } else if names.len() == 1 {
        assert(debug_escaped(names[0]) == quoted(names[0]));
    }
}

/// The answer to `status` for a watched folder and backend names that are
/// printable ASCII without quotes or backslashes.
pub open spec fn status_text_quoted(
    paused: bool,
    watch_dir: Seq<char>,
    config_file: Seq<char>,
    names: Seq<Seq<char>>,
    syncing: bool,
    ui: Option<Seq<char>>,
) -> Seq<char> {
    "Status: OK\n"@
        + "Paused: "@ + bool_text(paused) + "\n"@
        + "Watch Directory: "@ + quoted(watch_dir) + "\n"@
        + "Config File: "@ + config_file + "\n"@
        + "Active Backends: "@ + ("["@ + join_quoted(names) + "]"@) + "\n"@
        + "Syncing: "@ + bool_text(syncing) + "\n"@
        + "Web UI Address: "@ + address_text(ui) + "\n"@
}

/// The web address shown, `-` when there is none.
pub open spec fn address_text(ui: Option<Seq<char>>) -> Seq<char> {
    match ui {
        Some(u) => u,
        None => "-"@,
    }
}

/// The daemon's answer to `status`.
pub open spec fn status_text(
    paused: bool,
    watch_dir: Seq<char>,
    config_file: Seq<char>,
    names: Seq<Seq<char>>,
    syncing: bool,
    ui: Option<Seq<char>>,
) -> Seq<char> {
    "Status: OK\n"@
        + "Paused: "@ + bool_text(paused) + "\n"@
        + "Watch Directory: "@ + debug_escaped(watch_dir) + "\n"@
        + "Config File: "@ + config_file + "\n"@
        + "Active Backends: "@ + debug_list(names) + "\n"@
        + "Syncing: "@ + bool_text(syncing) + "\n"@
        + "Web UI Address: "@ + address_text(ui) + "\n"@
}

fn bool_string(b: bool) -> (s: String)
    ensures
        s@ == bool_text(b),
{
    if b { "true".to_owned() } else { "false".to_owned() }
}

fn debug_list_string(names: &Vec<String>) -> (s: String)
    ensures
        s@ == debug_list(views_of(names@)),
        all_plain(views_of(names@)) ==> renders_quoted(views_of(names@)),
{
    let mut s = "[".to_owned();
    let mut i: usize = 0;
    while i < names.len()
        invariant
            i <= names@.len(),
            s@ == "["@ + join_debug(views_of(names@).take(i as int)),
            forall|k: int| 0 <= k < i && plain_text(views_of(names@)[k]) ==>
                debug_escaped(#[trigger] views_of(names@)[k]) == quoted(views_of(names@)[k]),
        decreases names.len() - i,
    {
        proof {
            assert(views_of(names@).take(i as int + 1).drop_last() =~= views_of(names@).take(i as int));
            assert(views_of(names@).take(i as int + 1).last() == names@[i as int]@);
        }
        if i > 0 {
            s.append(", ");
        }
        let d = debug_quoted(names[i].as_str());
        assert(views_of(names@)[i as int] == names@[i as int]@);
        s.append(d.as_str());
        proof {
            if i == 0 {
                assert(views_of(names@).take(1)[0] == names@[0]@);
                assert(join_debug(views_of(names@).take(0)) =~= Seq::<char>::empty());
            }
        }
        i = i + 1;
    }
    assert(views_of(names@).take(names.len() as int) =~= views_of(names@));
    s.append("]");
    s
}

/// Renders the daemon's answer to `status`.
pub fn format_status(
    paused: bool,
    watch_dir: &str,
    config_file: &str,
    backend_names: &Vec<String>,
    syncing: bool,
    ui_addr: &Option<String>,
) -> (s: String)
    ensures
        s@ == status_text(paused, watch_dir@, config_file@, views_of(backend_names@), syncing, crate::state::ck(*ui_addr)),
        plain_text(watch_dir@) && all_plain(views_of(backend_names@)) ==> s@ == status_text_quoted(
            paused,
            watch_dir@,
            config_file@,
            views_of(backend_names@),
            syncing,
            crate::state::ck(*ui_addr),
        ),
{
    let mut s = "Status: OK\n".to_owned();
    s.append("Paused: ");
    s.append(bool_string(paused).as_str());
    s.append("\n");
    s.append("Watch Directory: ");
    let wd = debug_quoted(watch_dir);
    s.append(wd.as_str());
    s.append("\n");
    s.append("Config File: ");
    s.append(config_file);
    s.append("\n");
    s.append("Active Backends: ");
    let list = debug_list_string(backend_names);
    proof {
        if all_plain(views_of(backend_names@)) {
            lemma_join_quoted(views_of(backend_names@));
        }
    }
    s.append(list.as_str());
    s.append("\n");
    s.append("Syncing: ");
    s.append(bool_string(syncing).as_str());
    s.append("\n");
    s.append("Web UI Address: ");
    match ui_addr {
        Some(u) => s.append(u.as_str()),
        None => s.append("-"),
    }
    s.append("\n");
    s
}

} // verus!

verus! {

proof fn lemma_not_starts(s: Seq<char>, p: Seq<char>, k: int)
    requires
        0 <= k < p.len(),
        k < s.len(),
        s[k] != p[k],
    ensures
        !starts(s, p),
{
    if p.len() <= s.len() {
        assert(s.take(p.len() as int)[k] != p[k]);
    }
}

proof fn lemma_keyed(key: Seq<char>, v: Seq<char>)
    requires
        key.len() > 0,
        !starts(v, key),
    ensures
        starts(key + v, key),
        strip_all(key + v, key) == v,
{
    assert((key + v).take(key.len() as int) =~= key);
    assert((key + v).skip(key.len() as int) =~= v);
    assert(strip_all(v, key) == v);
}

/// A value written after its key that reads back as written: one line, not
/// beginning with the key, and without white space or quotes at its ends.
pub open spec fn bare_value(v: Seq<char>, key: Seq<char>) -> bool {
    &&& crate::text::lacks(v, '\n')
    &&& !starts(v, key)
    &&& (v.len() == 0 || (!crate::text::is_ws(v[0]) && !crate::text::is_ws(v.last()) && v[0] != '"' && v.last() != '"'))
}

proof fn lemma_trim_fixed(v: Seq<char>)
    requires
        v.len() > 0,
        !crate::text::is_ws(v[0]),
        !crate::text::is_ws(v.last()),
    ensures
        trim_ws(v) == v,
{
    assert(crate::text::trim_ws_start(v) == v);
    assert(crate::text::trim_ws_end(v) == v);
}

proof fn lemma_bare_reads(key: Seq<char>, v: Seq<char>)
    requires
        key.len() > 0,
        bare_value(v, key),
    ensures
        field_value(key + v, key) == v,
{
    lemma_keyed(key, v);
    if v.len() > 0 {
        lemma_trim_fixed(v);
    } else {
        assert(trim_ws(v) =~= v);
    }
}

proof fn lemma_quoted_reads(key: Seq<char>, w: Seq<char>)
    requires
        key.len() > 0,
        key[0] != '"',
    ensures
        field_value(key + quoted(w), key) == w,
{
    let q = quoted(w);
    lemma_not_starts(q, key, 0);
    lemma_keyed(key, q);
    lemma_trim_fixed(q);
    assert(q.drop_first() =~= w.push('"'));
    assert(w.push('"').drop_last() =~= w);
}

proof fn lemma_flag_reads(key: Seq<char>, b: bool)
    requires
        key.len() > 5,
    ensures
        field_flag(key + bool_text(b), key) == b,
{
    reveal_strlit("true");
    reveal_strlit("false");
    let t = bool_text(b);
    assert(!starts(t, key));
    lemma_keyed(key, t);
    lemma_trim_fixed(t);
}

pub open spec fn list_names(names: Seq<Seq<char>>) -> bool {
    &&& all_plain(names)
    &&& forall|i: int| 0 <= i < names.len() ==> (#[trigger] names[i]).len() > 0 && crate::text::lacks(names[i], ',')
}

proof fn lemma_plain_lacks(s: Seq<char>, c: char)
    requires
        plain_text(s),
        c == '\n' || c == '"',
    ensures
        crate::text::lacks(s, c),
{
    assert forall|i: int| 0 <= i < s.len() implies s[i] != c by {
        assert(plain_text(s));
        assert(' ' <= s[i] <= '~');
    }
}

proof fn lemma_cleaned(n: Seq<char>, lead: bool)
    requires
        n.len() > 0,
    ensures
        strip_quotes(trim_ws(if lead { seq![' '] + quoted(n) } else { quoted(n) })) == n,
{
    let q = quoted(n);
    lemma_trim_fixed(q);
    if lead {
        let s = seq![' '] + q;
        assert(s.drop_first() =~= q);
        assert(crate::text::trim_ws_start(s) == crate::text::trim_ws_start(q));
        assert(crate::text::trim_ws_start(q) == q);
        assert(trim_ws(s) == trim_ws(q));
    }
    assert(q.drop_first() =~= n.push('"'));
    assert(n.push('"').drop_last() =~= n);
}

proof fn lemma_join_reads(names: Seq<Seq<char>>)
    requires
        list_names(names),
    ensures
        clean_items(spec_split(join_quoted(names), ',')) == names,
        crate::text::lacks(join_quoted(names), '\n'),
    decreases names.len(),
{
    reveal_strlit(", ");
    if names.len() == 0 {
        assert(clean_items(seq![Seq::<char>::empty()].drop_last()) =~= Seq::<Seq<char>>::empty());
        assert(strip_quotes(trim_ws(Seq::<char>::empty())) =~= Seq::<char>::empty());
        assert(names =~= Seq::<Seq<char>>::empty());
    } else {
        let n = names.last();
        assert(n == names[names.len() - 1]);
        assert(plain_text(n));
        let q = quoted(n);
        lemma_plain_lacks(n, '\n');
        assert(crate::text::lacks(q, ',')) by {
            assert forall|i: int| 0 <= i < q.len() implies q[i] != ',' by {
                if 0 < i < q.len() - 1 {
                    assert(q[i] == n[i - 1]);
                }
            }
        }
        assert(crate::text::lacks(q, '\n')) by {
            assert forall|i: int| 0 <= i < q.len() implies q[i] != '\n' by {
                if 0 < i < q.len() - 1 {
                    assert(q[i] == n[i - 1]);
                }
            }
        }
        if names.len() == 1 {
            crate::text::lemma_split_whole(q, ',');
            lemma_cleaned(n, false);
            assert(seq![q].drop_last() =~= Seq::<Seq<char>>::empty());
            assert(clean_items(Seq::<Seq<char>>::empty()) =~= Seq::<Seq<char>>::empty());
            assert(names =~= seq![n]);
        } else {
            let pre = names.drop_last();
            assert(list_names(pre)) by {
                assert forall|i: int| 0 <= i < pre.len() implies plain_text(#[trigger] pre[i]) by {
                    assert(pre[i] == names[i]);
                }
                assert forall|i: int| 0 <= i < pre.len() implies (#[trigger] pre[i]).len() > 0
                    && crate::text::lacks(pre[i], ',') by {
                    assert(pre[i] == names[i]);
                }
            }
            lemma_join_reads(pre);
            let b = seq![' '] + q;
            assert(crate::text::lacks(b, ',')) by {
                assert forall|i: int| 0 <= i < b.len() implies b[i] != ',' by {
                    if i > 0 {
                        assert(b[i] == q[i - 1]);
                    }
                }
            }
            assert(join_quoted(names) =~= join_quoted(pre) + seq![','] + b);
            crate::text::lemma_split_last(join_quoted(pre), ',', b);
            let parts = spec_split(join_quoted(pre), ',').push(b);
            assert(parts.drop_last() =~= spec_split(join_quoted(pre), ','));
            lemma_cleaned(n, true);
            assert(names =~= pre.push(n));
            assert(crate::text::lacks(join_quoted(names), '\n')) by {
                let j = join_quoted(names);
                let jp = join_quoted(pre);
                assert forall|i: int| 0 <= i < j.len() implies j[i] != '\n' by {
                    if i < jp.len() {
                        assert(j[i] == jp[i]);
                    } else if i == jp.len() {
                        assert(j[i] == ',');
                    } else {
                        assert(j[i] == b[i - jp.len() - 1]);
                    }
                }
            }
        }
    }
}

} // verus!

verus! {

proof fn lemma_lacks_concat(a: Seq<char>, b: Seq<char>, c: char)
    requires
        crate::text::lacks(a, c),
        crate::text::lacks(b, c),
    ensures
        crate::text::lacks(a + b, c),
{
    assert forall|i: int| 0 <= i < (a + b).len() implies (a + b)[i] != c by {
        if i < a.len() {
            assert((a + b)[i] == a[i]);
        } else {
            assert((a + b)[i] == b[i - a.len()]);
        }
    }
}

/// The field values a status report is read back as.
pub open spec fn reported_fields(
    paused: bool,
    watch_dir: Seq<char>,
    config_file: Seq<char>,
    names: Seq<Seq<char>>,
    syncing: bool,
    ui: Option<Seq<char>>,
) -> StatusView {
    StatusView {
        paused,
        watch_directory: watch_dir,
        config_file,
        active_backends: names,
        failed_backends: Seq::empty(),
        syncing,
        web_ui_address: address_text(ui),
    }
}

/// The lines of a status report.
pub open spec fn report_lines(
    paused: bool,
    watch_dir: Seq<char>,
    config_file: Seq<char>,
    names: Seq<Seq<char>>,
    syncing: bool,
    ui: Option<Seq<char>>,
) -> Seq<Seq<char>> {
    seq![
        "Status: OK"@,
        "Paused: "@ + bool_text(paused),
        "Watch Directory: "@ + quoted(watch_dir),
        "Config File: "@ + config_file,
        "Active Backends: "@ + ("["@ + join_quoted(names) + "]"@),
        "Syncing: "@ + bool_text(syncing),
        "Web UI Address: "@ + address_text(ui),
    ]
}

pub open spec fn report_conditions(
    watch_dir: Seq<char>,
    config_file: Seq<char>,
    names: Seq<Seq<char>>,
    ui: Option<Seq<char>>,
) -> bool {
    &&& plain_text(watch_dir)
    &&& list_names(names)
    &&& bare_value(config_file, "Config File: "@)
    &&& ui matches Some(u) ==> bare_value(u, "Web UI Address: "@)
}

#[verifier::rlimit(40)]
proof fn lemma_report_lines(
    paused: bool,
    watch_dir: Seq<char>,
    config_file: Seq<char>,
    names: Seq<Seq<char>>,
    syncing: bool,
    ui: Option<Seq<char>>,
)
    requires
        report_conditions(watch_dir, config_file, names, ui),
    ensures
        spec_lines(status_text_quoted(paused, watch_dir, config_file, names, syncing, ui))
            == report_lines(paused, watch_dir, config_file, names, syncing, ui),
{
    reveal_strlit("Status: OK\n");
    reveal_strlit("Status: OK");
    reveal_strlit("\n");
    reveal_strlit("Paused: ");
    reveal_strlit("Watch Directory: ");
    reveal_strlit("Config File: ");
    reveal_strlit("Active Backends: ");
    reveal_strlit("Syncing: ");
    reveal_strlit("Web UI Address: ");
    reveal_strlit("[");
    reveal_strlit("]");
    reveal_strlit("-");
    reveal_strlit("true");
    reveal_strlit("false");
    let kp = "Paused: "@;
    let kw = "Watch Directory: "@;
    let kc = "Config File: "@;
    let ka = "Active Backends: "@;
    let ks = "Syncing: "@;
    let ku = "Web UI Address: "@;
    let nl = seq!['\n'];
    let addr = address_text(ui);
    let j = join_quoted(names);
    let lb = "["@ + j + "]"@;
    let q = quoted(watch_dir);
    let l0 = "Status: OK"@;
    let l1 = kp + bool_text(paused);
    let l2 = kw + q;
    let l3 = kc + config_file;
    let l4 = ka + lb;
    let l5 = ks + bool_text(syncing);
    let l6 = ku + addr;
    let text = status_text_quoted(paused, watch_dir, config_file, names, syncing, ui);
    let x1 = l0 + nl + l1;
    let x2 = x1 + nl + l2;
    let x3 = x2 + nl + l3;
    let x4 = x3 + nl + l4;
    let x5 = x4 + nl + l5;
    let x6 = x5 + nl + l6;
    assert(text =~= x6 + nl + Seq::<char>::empty());
    assert(bare_value(addr, ku)) by {
        if ui is None {
            assert(addr == "-"@);
        }
    }
    lemma_join_reads(names);
    lemma_plain_lacks(watch_dir, '\n');
    assert(crate::text::lacks(q, '\n')) by {
        assert forall|i: int| 0 <= i < q.len() implies q[i] != '\n' by {
            if 0 < i < q.len() - 1 {
                assert(q[i] == watch_dir[i - 1]);
            }
        }
    }
    assert(crate::text::lacks(l0, '\n'));
    assert(crate::text::lacks(kp, '\n'));
    assert(crate::text::lacks(bool_text(paused), '\n'));
    assert(crate::text::lacks(bool_text(syncing), '\n'));
    lemma_lacks_concat(kp, bool_text(paused), '\n');
    assert(crate::text::lacks(kw, '\n'));
    lemma_lacks_concat(kw, q, '\n');
    assert(crate::text::lacks(kc, '\n'));
    lemma_lacks_concat(kc, config_file, '\n');
    assert(crate::text::lacks("["@, '\n'));
    assert(crate::text::lacks("]"@, '\n'));
    lemma_lacks_concat("["@, j, '\n');
    lemma_lacks_concat("["@ + j, "]"@, '\n');
    assert(crate::text::lacks(ka, '\n'));
    lemma_lacks_concat(ka, lb, '\n');
    assert(crate::text::lacks(ks, '\n'));
    lemma_lacks_concat(ks, bool_text(syncing), '\n');
    assert(crate::text::lacks(ku, '\n'));
    lemma_lacks_concat(ku, addr, '\n');
    crate::text::lemma_split_whole(l0, '\n');
    crate::text::lemma_split_last(l0, '\n', l1);
    crate::text::lemma_split_last(x1, '\n', l2);
    crate::text::lemma_split_last(x2, '\n', l3);
    crate::text::lemma_split_last(x3, '\n', l4);
    crate::text::lemma_split_last(x4, '\n', l5);
    crate::text::lemma_split_last(x5, '\n', l6);
    crate::text::lemma_split_last(x6, '\n', Seq::<char>::empty());
    let parts = spec_split(text, '\n');
    assert(parts =~= seq![l0, l1, l2, l3, l4, l5, l6, Seq::<char>::empty()]);
    assert(strip_cr(l0) == l0);
    assert(strip_cr(l1) == l1);
    assert(strip_cr(l2) == l2);
    assert(strip_cr(l3) == l3) by {
        if config_file.len() > 0 {
            assert(l3.last() == config_file.last());
        }
    }
    assert(strip_cr(l4) == l4);
    assert(strip_cr(l5) == l5);
    assert(strip_cr(l6) == l6) by {
        if addr.len() > 0 {
            assert(l6.last() == addr.last());
        }
    }
    assert(spec_lines(text) =~= seq![l0, l1, l2, l3, l4, l5, l6]);
}

#[verifier::rlimit(40)]
proof fn lemma_report_fields(
    paused: bool,
    watch_dir: Seq<char>,
    config_file: Seq<char>,
    names: Seq<Seq<char>>,
    syncing: bool,
    ui: Option<Seq<char>>,
)
    requires
        report_conditions(watch_dir, config_file, names, ui),
    ensures
        parse_lines(report_lines(paused, watch_dir, config_file, names, syncing, ui))
            == reported_fields(paused, watch_dir, config_file, names, syncing, ui),
{
    reveal_strlit("Status: OK");
    reveal_strlit("Paused: ");
    reveal_strlit("Watch Directory: ");
    reveal_strlit("Config File: ");
    reveal_strlit("Active Backends: ");
    reveal_strlit("Failed Backends: ");
    reveal_strlit("Syncing: ");
    reveal_strlit("Web UI Address: ");
    reveal_strlit("[");
    reveal_strlit("]");
    reveal_strlit("-");
    reveal_strlit("true");
    reveal_strlit("false");
    let kp = "Paused: "@;
    let kw = "Watch Directory: "@;
    let kc = "Config File: "@;
    let ka = "Active Backends: "@;
    let kf = "Failed Backends: "@;
    let ks = "Syncing: "@;
    let ku = "Web UI Address: "@;
    let addr = address_text(ui);
    let j = join_quoted(names);
    let lb = "["@ + j + "]"@;
    let q = quoted(watch_dir);
    let l0 = "Status: OK"@;
    let l1 = kp + bool_text(paused);
    let l2 = kw + q;
    let l3 = kc + config_file;
    let l4 = ka + lb;
    let l5 = ks + bool_text(syncing);
    let l6 = ku + addr;
    assert(bare_value(addr, ku)) by {
        if ui is None {
            assert(addr == "-"@);
        }
    }
    lemma_join_reads(names);

    let st0 = empty_status();
    lemma_not_starts(l0, kp, 0);
    lemma_not_starts(l0, kw, 0);
    lemma_not_starts(l0, kc, 0);
    lemma_not_starts(l0, ka, 0);
    lemma_not_starts(l0, kf, 0);
    lemma_not_starts(l0, ks, 1);
    lemma_not_starts(l0, ku, 0);
    let st1 = apply_line(st0, l0);
    assert(st1 == st0);

    lemma_keyed(kp, bool_text(paused));
    lemma_flag_reads(kp, paused);
    let st2 = apply_line(st1, l1);
    assert(st2 == StatusView { paused, ..st1 });

    lemma_not_starts(l2, kp, 0);
    lemma_not_starts(q, kw, 0);
    lemma_keyed(kw, q);
    lemma_quoted_reads(kw, watch_dir);
    let st3 = apply_line(st2, l2);
    assert(st3 == StatusView { watch_directory: watch_dir, ..st2 });

    lemma_not_starts(l3, kp, 0);
    lemma_not_starts(l3, kw, 0);
    lemma_keyed(kc, config_file);
    lemma_bare_reads(kc, config_file);
    let st4 = apply_line(st3, l3);
    assert(st4 == StatusView { config_file, ..st3 });

    lemma_not_starts(l4, kp, 0);
    lemma_not_starts(l4, kw, 0);
    lemma_not_starts(l4, kc, 0);
    lemma_not_starts(lb, ka, 0);
    lemma_keyed(ka, lb);
    lemma_trim_fixed(lb);
    assert(lb.subrange(1, lb.len() - 1) =~= j);
    assert(field_list(l4, ka) == names);
    let st5 = apply_line(st4, l4);
    assert(st5.active_backends =~= names);
    assert(st5 == StatusView { active_backends: names, ..st4 });

    lemma_not_starts(l5, kp, 0);
    lemma_not_starts(l5, kw, 0);
    lemma_not_starts(l5, kc, 0);
    lemma_not_starts(l5, ka, 0);
    lemma_not_starts(l5, kf, 0);
    lemma_keyed(ks, bool_text(syncing));
    lemma_flag_reads(ks, syncing);
    let st6 = apply_line(st5, l5);
    assert(st6 == StatusView { syncing, ..st5 });

    lemma_not_starts(l6, kp, 0);
    lemma_not_starts(l6, kw, 1);
    lemma_not_starts(l6, kc, 0);
    lemma_not_starts(l6, ka, 0);
    lemma_not_starts(l6, kf, 0);
    lemma_not_starts(l6, ks, 0);
    lemma_keyed(ku, addr);
    lemma_bare_reads(ku, addr);
    let st7 = apply_line(st6, l6);
    assert(st7 == StatusView { web_ui_address: addr, ..st6 });

    let ls = seq![l0, l1, l2, l3, l4, l5, l6];
    assert(ls =~= report_lines(paused, watch_dir, config_file, names, syncing, ui));
    assert(parse_lines(Seq::<Seq<char>>::empty()) == st0);
    assert(seq![l0].drop_last() =~= Seq::<Seq<char>>::empty());
    assert(parse_lines(seq![l0]) == st1);
    assert(seq![l0, l1].drop_last() =~= seq![l0]);
    assert(parse_lines(seq![l0, l1]) == st2);
    assert(seq![l0, l1, l2].drop_last() =~= seq![l0, l1]);
    assert(parse_lines(seq![l0, l1, l2]) == st3);
    assert(seq![l0, l1, l2, l3].drop_last() =~= seq![l0, l1, l2]);
    assert(parse_lines(seq![l0, l1, l2, l3]) == st4);
    assert(seq![l0, l1, l2, l3, l4].drop_last() =~= seq![l0, l1, l2, l3]);
    assert(parse_lines(seq![l0, l1, l2, l3, l4]) == st5);
    assert(seq![l0, l1, l2, l3, l4, l5].drop_last() =~= seq![l0, l1, l2, l3, l4]);
    assert(parse_lines(seq![l0, l1, l2, l3, l4, l5]) == st6);
    assert(ls.drop_last() =~= seq![l0, l1, l2, l3, l4, l5]);
    assert(parse_lines(ls) == st7);
    assert(st7 == reported_fields(paused, watch_dir, config_file, names, syncing, ui));
}

/// What the daemon reports with `status` reads back as the fields it
/// reported: the pause and sync flags, the watched folder, the configuration
/// file, the active backends in order (no failed ones), and the web address
/// (`-` when there is none). This holds for printable ASCII folder and
/// backend names without quotes or backslashes (and backend names without
/// commas), and for a configuration file and web address on one line,
/// without white space or quotes at their ends, that do not begin with their
/// own key.
pub proof fn law_status_report_reads_back(
    paused: bool,
    watch_dir: Seq<char>,
    config_file: Seq<char>,
    names: Seq<Seq<char>>,
    syncing: bool,
    ui: Option<Seq<char>>,
)
    requires
        report_conditions(watch_dir, config_file, names, ui),
    ensures
        spec_parse_status(status_text_quoted(paused, watch_dir, config_file, names, syncing, ui))
            == reported_fields(paused, watch_dir, config_file, names, syncing, ui),
{
    lemma_report_lines(paused, watch_dir, config_file, names, syncing, ui);
    lemma_report_fields(paused, watch_dir, config_file, names, syncing, ui);
}

} // verus!
