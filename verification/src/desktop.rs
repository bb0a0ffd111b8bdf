//! Reading XDG desktop entries, so the launcher knows what "Firefox" means.
//!
//! The parser takes text, not paths, and the check that a program is
//! installed is handed in, so all of it works on literals.
use vstd::prelude::*;

use crate::text::{
    eq_lit, find, find_char, join_vecs, join_words, slice_of, split_words, string_from, to_chars,
    trim, trim_range, words,
};

verus! {

/// `Exec` text with its field codes taken out: `%%` is a percent sign, any
/// other `%x` goes along with its `%`, and a `%` at the very end stays.
pub open spec fn unescape(s: Seq<char>) -> Seq<char>
    decreases s.len(),
{
    if s.len() == 0 {
        seq![]
    } else if s[0] != '%' {
        seq![s[0]] + unescape(s.drop_first())
    } else if s.len() == 1 {
        seq!['%']
    } else if s[1] == '%' {
        seq!['%'] + unescape(s.skip(2))
    } else {
        unescape(s.skip(2))
    }
}

/// What `strip_field_codes` makes of an `Exec` line: field codes out, then
/// its words joined by single spaces.
pub open spec fn stripped(exec: Seq<char>) -> Seq<char> {
    join_words(words(unescape(exec)))
}

fn unescape_exec(v: &Vec<char>) -> (r: Vec<char>)
    ensures
        r@ == unescape(v@),
{
    let mut out: Vec<char> = Vec::new();
    let mut i: usize = 0;
    assert(v@.skip(0) == v@);
    while i < v.len()
        invariant
            i <= v.len(),
            out@ + unescape(v@.skip(i as int)) == unescape(v@),
        decreases v.len() - i,
    {
        let ghost rest = v@.skip(i as int);
        let c = v[i];
        if c != '%' {
            assert(rest.drop_first() == v@.skip(i + 1));
            assert(out@.push(c) + unescape(v@.skip(i + 1)) == out@ + unescape(rest));
            out.push(c);
            i += 1;
        } else if i + 1 == v.len() {
            assert(unescape(rest) == seq!['%']);
            out.push('%');
            i += 1;
            assert(v@.skip(i as int).len() == 0);
            assert(unescape(v@.skip(i as int)) == Seq::<char>::empty());
            assert(out@ + unescape(v@.skip(i as int)) == out@);
        } else if v[i + 1] == '%' {
            assert(rest.skip(2) == v@.skip(i + 2));
            assert(out@.push('%') + unescape(v@.skip(i + 2)) == out@ + unescape(rest));
            out.push('%');
            i += 2;
        } else {
            assert(rest.skip(2) == v@.skip(i + 2));
            i += 2;
        }
    }
    assert(v@.skip(v.len() as int).len() == 0);
    assert(unescape(v@.skip(v.len() as int)) == Seq::<char>::empty());
    assert(out@ + Seq::<char>::empty() == out@);
    out
}

/// Strip the field codes an `Exec` line may carry (`%f %F %u %U %i %c %k`
/// and the rest), keeping an escaped `%%` as one percent sign, and collapse
/// the whitespace left behind.
pub fn strip_field_codes(exec: &str) -> (r: String)
    ensures
        r@ == stripped(exec@),
{
    let v = to_chars(exec);
    let u = unescape_exec(&v);
    let w = split_words(&u);
    join_vecs(&w)
}

broadcast use crate::text::lemma_find_in_bounds;

/// One installed application.
#[derive(Debug, Clone, PartialEq)]
pub struct DesktopEntry {
    pub name: String,
    /// The `Exec` line with field codes removed, ready to spawn.
    pub command: String,
    /// `GenericName` or `Comment` — what the row shows on the right.
    pub comment: String,
    /// Whether it needs a terminal wrapped around it.
    pub terminal: bool,
    /// The desktop file id (`firefox.desktop`).
    pub id: String,
}

/// A [`DesktopEntry`] as characters.
pub struct EntryView {
    pub name: Seq<char>,
    pub command: Seq<char>,
    pub comment: Seq<char>,
    pub terminal: bool,
    pub id: Seq<char>,
}

impl View for DesktopEntry {
    type V = EntryView;

    open spec fn view(&self) -> EntryView {
        EntryView {
            name: self.name@,
            command: self.command@,
            comment: self.comment@,
            terminal: self.terminal,
            id: self.id@,
        }
    }
}

pub open spec fn entry_opt(e: Option<DesktopEntry>) -> Option<EntryView> {
    match e {
        Some(e) => Some(e@),
        None => None,
    }
}

/// `text` cut at each line feed: the lines finished so far, and the one
/// being read.
pub open spec fn line_acc(s: Seq<char>) -> (Seq<Seq<char>>, Seq<char>)
    decreases s.len(),
{
    if s.len() == 0 {
        (seq![], seq![])
    } else {
        let (done, cur) = line_acc(s.drop_last());
        if s.last() == '\n' {
            (done.push(cur), seq![])
        } else {
            (done, cur.push(s.last()))
        }
    }
}

/// The lines of `text`, cut at each line feed.
pub open spec fn lines_of(text: Seq<char>) -> Seq<Seq<char>> {
    line_acc(text).0.push(line_acc(text).1)
}

/// One line of a desktop file read into the state `(inside [Desktop Entry],
/// key-value pairs so far)`. A `[` line starts a group, and only the
/// `[Desktop Entry]` group is read; inside it, comments and lines with no `=`
/// are skipped, and `key=value` is recorded trimmed.
pub open spec fn scan_line(st: (bool, Seq<(Seq<char>, Seq<char>)>), raw: Seq<char>) -> (
    bool,
    Seq<(Seq<char>, Seq<char>)>,
) {
    let line = trim(raw);
    if line.len() > 0 && line[0] == '[' {
        (line == "[Desktop Entry]"@, st.1)
    } else if !st.0 || (line.len() > 0 && line[0] == '#') {
        st
    } else {
        match find(line, '=') {
            None => st,
            Some(k) => (st.0, st.1.push((trim(line.take(k as int)), trim(line.skip(k as int + 1))))),
        }
    }
}

pub open spec fn scan_lines(ls: Seq<Seq<char>>) -> (bool, Seq<(Seq<char>, Seq<char>)>)
    decreases ls.len(),
{
    if ls.len() == 0 {
        (false, seq![])
    } else {
        scan_line(scan_lines(ls.drop_last()), ls.last())
    }
}

/// The `[Desktop Entry]` group's key-value pairs, in file order.
pub open spec fn fields_of(text: Seq<char>) -> Seq<(Seq<char>, Seq<char>)> {
    scan_lines(lines_of(text)).1
}

/// Cutting two texts joined by a line feed: the lines of the first, then
/// those of the second.
proof fn lemma_line_acc_join(s: Seq<char>, t: Seq<char>)
    ensures
        line_acc(s + seq!['\n'] + t) == (lines_of(s) + line_acc(t).0, line_acc(t).1),
    decreases t.len(),
{
    let j = s + seq!['\n'] + t;
    if t.len() == 0 {
        assert(j == s + seq!['\n']);
        assert(j.drop_last() == s);
        assert(lines_of(s) + Seq::<Seq<char>>::empty() == lines_of(s));
    } else {
        assert(j.drop_last() == s + seq!['\n'] + t.drop_last());
        lemma_line_acc_join(s, t.drop_last());
        let (a, c) = line_acc(t.drop_last());
        if t.last() == '\n' {
            assert((lines_of(s) + a).push(c) == lines_of(s) + a.push(c));
        }
    }
}

/// The lines of two texts joined by a line feed are the lines of each.
pub proof fn lemma_lines_of_join(s: Seq<char>, t: Seq<char>)
    ensures
        lines_of(s + seq!['\n'] + t) == lines_of(s) + lines_of(t),
{
    lemma_line_acc_join(s, t);
    let (a, c) = line_acc(t);
    assert((lines_of(s) + a).push(c) == lines_of(s) + a.push(c));
}

/// Reading the lines `ls` on from the state `st`.
pub open spec fn scan_from(st: (bool, Seq<(Seq<char>, Seq<char>)>), ls: Seq<Seq<char>>) -> (
    bool,
    Seq<(Seq<char>, Seq<char>)>,
)
    decreases ls.len(),
{
    if ls.len() == 0 {
        st
    } else {
        scan_line(scan_from(st, ls.drop_last()), ls.last())
    }
}

/// Reading `a` and then `b` is reading `b` on from where `a` left off.
proof fn lemma_scan_join(a: Seq<Seq<char>>, b: Seq<Seq<char>>)
    ensures
        scan_lines(a + b) == scan_from(scan_lines(a), b),
    decreases b.len(),
{
    if b.len() == 0 {
        assert(a + b == a);
    } else {
        assert((a + b).drop_last() == a + b.drop_last());
        lemma_scan_join(a, b.drop_last());
    }
}

/// Lines that open a group other than `[Desktop Entry]`, and never open
/// that one, leave the reader outside the entry with nothing added.
proof fn lemma_other_group(st: (bool, Seq<(Seq<char>, Seq<char>)>), b: Seq<Seq<char>>)
    requires
        b.len() > 0,
        trim(b[0]).len() > 0 && trim(b[0])[0] == '[',
        forall|i: int| 0 <= i < b.len() ==> #[trigger] trim(b[i]) != "[Desktop Entry]"@,
    ensures
        scan_from(st, b) == (false, st.1),
    decreases b.len(),
{
    if b.len() > 1 {
        assert(b.drop_last()[0] == b[0]);
        assert forall|i: int| 0 <= i < b.drop_last().len() implies #[trigger] trim(b.drop_last()[i])
            != "[Desktop Entry]"@ by {
            assert(b.drop_last()[i] == b[i]);
        }
        lemma_other_group(st, b.drop_last());
        assert(trim(b[b.len() - 1]) != "[Desktop Entry]"@);
    } else {
        assert(scan_from(st, b.drop_last()) == st);
        assert(trim(b[0]) != "[Desktop Entry]"@);
    }
}

/// Only the `[Desktop Entry]` group is read: a file with another group
/// (`[Desktop Action ...]`, say) appended after it describes the same entry,
/// whatever that group's keys are.
pub proof fn law_a_later_group_changes_nothing(text: Seq<char>, more: Seq<char>)
    requires
        trim(lines_of(more)[0]).len() > 0 && trim(lines_of(more)[0])[0] == '[',
        forall|i: int|
            0 <= i < lines_of(more).len() ==> #[trigger] trim(lines_of(more)[i]) != "[Desktop Entry]"@,
    ensures
        fields_of(text + seq!['\n'] + more) == fields_of(text),
        forall|id: Seq<char>, installed: bool|
            #[trigger] entry_from(id, fields_of(text + seq!['\n'] + more), installed) == entry_from(
                id,
                fields_of(text),
                installed,
            ),
{
    lemma_lines_of_join(text, more);
    lemma_scan_join(lines_of(text), lines_of(more));
    lemma_other_group(scan_lines(lines_of(text)), lines_of(more));
}

/// The first value recorded for `key`: within the group, the first wins.
pub open spec fn lookup(f: Seq<(Seq<char>, Seq<char>)>, key: Seq<char>) -> Option<Seq<char>>
    decreases f.len(),
{
    if f.len() == 0 {
        None
    } else if f[0].0 == key {
        Some(f[0].1)
    } else {
        lookup(f.drop_first(), key)
    }
}

/// An entry that is an application meant to be shown.
pub open spec fn shown(f: Seq<(Seq<char>, Seq<char>)>) -> bool {
    lookup(f, "Type"@) == Some("Application"@) && lookup(f, "NoDisplay"@) != Some("true"@)
        && lookup(f, "Hidden"@) != Some("true"@)
}

/// What `std::path::Path::file_name` gives for a path: its last component,
/// unless that is `..` or there is none.
pub uninterp spec fn path_file_name(path: Seq<char>) -> Option<Seq<char>>;

/// `Path::new(path).file_name()`, as text: `path_file_name` of the path, and
/// nothing else is claimed of it.
#[verifier::external_body]
fn file_name_of(path: &str) -> (r: Option<String>)
    ensures
        match r {
            Some(n) => path_file_name(path@) == Some(n@),
            None => path_file_name(path@) is None,
        },
{
    match std::path::Path::new(path).file_name() {
        Some(name) => name.to_str().map(|s| s.to_owned()),
        None => None,
    }
}

/// The program `TryExec` names: its first word, as a file name.
pub open spec fn try_exec_binary(f: Seq<(Seq<char>, Seq<char>)>) -> Option<Seq<char>> {
    match lookup(f, "TryExec"@) {
        None => None,
        Some(t) => {
            let word = if words(t).len() > 0 { words(t)[0] } else { t };
            Some(
                match path_file_name(word) {
                    Some(n) => n,
                    None => word,
                },
            )
        },
    }
}

/// The entry a desktop file's fields describe, given whether the program
/// `TryExec` names is installed: a shown application with a non-empty name
/// and command, described by `GenericName`, else `Comment`.
pub open spec fn entry_from(id: Seq<char>, f: Seq<(Seq<char>, Seq<char>)>, installed: bool) -> Option<EntryView> {
    if !shown(f) {
        None
    } else if try_exec_binary(f) is Some && !installed {
        None
    } else {
        match (lookup(f, "Name"@), lookup(f, "Exec"@)) {
            (Some(n), Some(e)) => if n.len() == 0 || stripped(e).len() == 0 {
                None
            } else {
                Some(
                    EntryView {
                        name: n,
                        command: stripped(e),
                        comment: match lookup(f, "GenericName"@) {
                            Some(g) => g,
                            None => match lookup(f, "Comment"@) {
                                Some(c) => c,
                                None => seq![],
                            },
                        },
                        terminal: lookup(f, "Terminal"@) == Some("true"@),
                        id,
                    },
                )
            },
            _ => None,
        }
    }
}

pub open spec fn field_views(f: Seq<(Vec<char>, Vec<char>)>) -> Seq<(Seq<char>, Seq<char>)> {
    f.map_values(|p: (Vec<char>, Vec<char>)| (p.0@, p.1@))
}

fn trimmed_vec(v: &Vec<char>) -> (r: Vec<char>)
    ensures
        r@ == trim(v@),
{
    let (lo, hi) = trim_range(v);
    slice_of(v, lo, hi)
}

/// Read one line into the scan state.
fn scan_line_exec(in_entry: &mut bool, fields: &mut Vec<(Vec<char>, Vec<char>)>, raw: &Vec<char>)
    ensures
        (*final(in_entry), field_views(final(fields)@)) == scan_line(
            (*old(in_entry), field_views(old(fields)@)),
            raw@,
        ),
{
    let line = trimmed_vec(raw);
    if line.len() > 0 && line[0] == '[' {
        *in_entry = eq_lit(&line, "[Desktop Entry]");
        return;
    }
    if !*in_entry || (line.len() > 0 && line[0] == '#') {
        return;
    }
    match find_char(&line, '=') {
        None => {},
        Some(k) => {
            let key = trimmed_vec(&slice_of(&line, 0, k));
            let value = trimmed_vec(&slice_of(&line, k + 1, line.len()));
            assert(slice_of_view(line@, 0, k as int) == line@.take(k as int));
            assert(line@.subrange(k + 1, line.len() as int) == line@.skip(k as int + 1));
            let ghost before = field_views(fields@);
            fields.push((key, value));
            assert(field_views(fields@) =~= before.push((key@, value@)));
        },
    }
}

pub open spec fn slice_of_view(s: Seq<char>, lo: int, hi: int) -> Seq<char> {
    s.subrange(lo, hi)
}

proof fn lemma_lookup_at(f: Seq<(Seq<char>, Seq<char>)>, key: Seq<char>, i: int)
    requires
        0 <= i < f.len(),
        f[i].0 == key,
        forall|j: int| 0 <= j < i ==> #[trigger] f[j].0 != key,
    ensures
        lookup(f, key) == Some(f[i].1),
    decreases i,
{
    if i > 0 {
        lemma_lookup_at(f.drop_first(), key, i - 1);
    }
}

proof fn lemma_lookup_none(f: Seq<(Seq<char>, Seq<char>)>, key: Seq<char>)
    requires
        forall|j: int| 0 <= j < f.len() ==> #[trigger] f[j].0 != key,
    ensures
        lookup(f, key) is None,
    decreases f.len(),
{
    if f.len() > 0 {
        lemma_lookup_none(f.drop_first(), key);
    }
}

/// The first value recorded for `key`.
fn lookup_exec(fields: &Vec<(Vec<char>, Vec<char>)>, key: &str) -> (r: Option<Vec<char>>)
    ensures
        match r {
            Some(v) => lookup(field_views(fields@), key@) == Some(v@),
            None => lookup(field_views(fields@), key@) is None,
        },
{
    let ghost f = field_views(fields@);
    let mut i: usize = 0;
    while i < fields.len()
        invariant
            i <= fields.len(),
            f == field_views(fields@),
            forall|j: int| 0 <= j < i ==> #[trigger] f[j].0 != key@,
        decreases fields.len() - i,
    {
        if eq_lit(&fields[i].0, key) {
            proof { lemma_lookup_at(f, key@, i as int); }
            return Some(fields[i].1.clone());
        }
        i += 1;
    }
    proof { lemma_lookup_none(f, key@); }
    None
}

/// Whether the first value for `key` is exactly `value`.
fn lookup_is(fields: &Vec<(Vec<char>, Vec<char>)>, key: &str, value: &str) -> (r: bool)
    ensures
        r == (lookup(field_views(fields@), key@) == Some(value@)),
{
    match lookup_exec(fields, key) {
        Some(v) => eq_lit(&v, value),
        None => false,
    }
}

/// The `[Desktop Entry]` fields of a desktop file, in file order.
fn scan_fields(text: &str) -> (r: Vec<(Vec<char>, Vec<char>)>)
    ensures
        field_views(r@) == fields_of(text@),
{
    let v = to_chars(text);
    let mut in_entry = false;
    let mut fields: Vec<(Vec<char>, Vec<char>)> = Vec::new();
    let mut cur: Vec<char> = Vec::new();
    let mut i: usize = 0;
    assert(v@.take(0) == Seq::<char>::empty());
    assert(field_views(fields@) =~= Seq::<(Seq<char>, Seq<char>)>::empty());
    while i < v.len()
        invariant
            i <= v.len(),
            v@ == text@,
            (in_entry, field_views(fields@)) == scan_lines(line_acc(v@.take(i as int)).0),
            cur@ == line_acc(v@.take(i as int)).1,
        decreases v.len() - i,
    {
        assert(v@.take(i + 1).drop_last() == v@.take(i as int));
        let ghost done = line_acc(v@.take(i as int)).0;
        if v[i] == '\n' {
            scan_line_exec(&mut in_entry, &mut fields, &cur);
            assert(done.push(cur@).drop_last() == done);
            cur = Vec::new();
        } else {
            cur.push(v[i]);
        }
        i += 1;
    }
    assert(v@.take(v.len() as int) == v@);
    let ghost done = line_acc(v@).0;
    scan_line_exec(&mut in_entry, &mut fields, &cur);
    assert(lines_of(v@).drop_last() == done);
    fields
}

/// Parse one desktop file's contents, asking `installed` whether the program
/// a `TryExec` line names exists.
///
/// `None` for anything that is not a visible, launchable application. Only
/// the `[Desktop Entry]` group is read: an action group's `Name` and `Exec`
/// never become the entry's. Keys are matched exactly, so `Name[de]` is not
/// `Name`, and the first value of a repeated key wins.
pub fn parse_entry<F: Fn(&str) -> bool>(id: &str, text: &str, installed: F) -> (r: Option<DesktopEntry>)
    requires
        forall|s: &str| #[trigger] installed.requires((s,)),
    ensures
        ({
            let f = fields_of(text@);
            match try_exec_binary(f) {
                Some(b) => if shown(f) {
                    exists|s: &str, ok: bool|
                        s@ == b && #[trigger] installed.ensures((s,), ok) && entry_opt(r) == entry_from(id@, f, ok)
                } else {
                    r is None
                },
                None => entry_opt(r) == entry_from(id@, f, true),
            }
        }),
{
    let fields = scan_fields(text);
    let ghost f = field_views(fields@);
    if !lookup_is(&fields, "Type", "Application") {
        return None;
    }
    if lookup_is(&fields, "NoDisplay", "true") || lookup_is(&fields, "Hidden", "true") {
        return None;
    }
    let mut ok = true;
    match lookup_exec(&fields, "TryExec") {
        Some(t) => {
            let w = split_words(&t);
            let word = if w.len() > 0 { w[0].clone() } else { t };
            let word_s = string_from(&word);
            let binary = match file_name_of(word_s.as_str()) {
                Some(n) => n,
                None => word_s,
            };
            assert(try_exec_binary(f) == Some(binary@));
            ok = installed(binary.as_str());
            if !ok {
                return None;
            }
        },
        None => {},
    }
    let ghost installed_ok = ok;
    let name = match lookup_exec(&fields, "Name") {
        Some(n) => n,
        None => return None,
    };
    let exec_raw = match lookup_exec(&fields, "Exec") {
        Some(e) => e,
        None => return None,
    };
    let exec_line = strip_field_codes(string_from(&exec_raw).as_str());
    if name.len() == 0 || exec_line.as_str().unicode_len() == 0 {
        return None;
    }
    let comment = match lookup_exec(&fields, "GenericName") {
        Some(g) => string_from(&g),
        None => match lookup_exec(&fields, "Comment") {
            Some(c) => string_from(&c),
            None => String::new(),
        },
    };
    let terminal = lookup_is(&fields, "Terminal", "true");
    Some(DesktopEntry { name: string_from(&name), command: exec_line, comment, terminal, id: id.to_owned() })
}

/// The command that actually launches an entry: a `Terminal=true` entry
/// runs as `<terminal> -e <exec>` when there is a terminal to run it in.
pub open spec fn launch_of(entry: EntryView, terminal: Option<Seq<char>>) -> Seq<char> {
    if !entry.terminal {
        entry.command
    } else {
        match terminal {
            Some(term) => term + " -e "@ + entry.command,
            None => entry.command,
        }
    }
}

/// The command that actually launches an entry.
pub fn launch_command(entry: &DesktopEntry, terminal: Option<&str>) -> (r: String)
    ensures
        r@ == launch_of(entry@, match terminal {
            Some(t) => Some(t@),
            None => None,
        }),
{
    if !entry.terminal {
        return entry.command.clone();
    }
    match terminal {
        Some(term) => {
            let mut s = String::new();
            s.append(term);
            s.append(" -e ");
            s.append(entry.command.as_str());
            s
        },
        None => entry.command.clone(),
    }
}

/// Reading a `:`-separated list left to right: the entries finished so far
/// (empty ones skipped), and the entry being read.
pub open spec fn colon_acc(s: Seq<char>) -> (Seq<Seq<char>>, Seq<char>)
    decreases s.len(),
{
    if s.len() == 0 {
        (seq![], seq![])
    } else {
        let (done, cur) = colon_acc(s.drop_last());
        if s.last() == ':' {
            if cur.len() > 0 {
                (done.push(cur), seq![])
            } else {
                (done, seq![])
            }
        } else {
            (done, cur.push(s.last()))
        }
    }
}

/// The non-empty entries of a `:`-separated list, in order.
pub open spec fn colon_list(s: Seq<char>) -> Seq<Seq<char>> {
    let (done, cur) = colon_acc(s);
    if cur.len() > 0 {
        done.push(cur)
    } else {
        done
    }
}

/// The directories whose `applications` subdirectory holds desktop entries,
/// in precedence order: the user's data directory first, then each entry
/// of `XDG_DATA_DIRS`, or `/usr/local/share` and `/usr/share` when that is
/// unset.
pub open spec fn data_dirs_of(home: Option<Seq<char>>, xdg: Option<Seq<char>>) -> Seq<Seq<char>> {
    let listed = match xdg {
        Some(x) => colon_list(x),
        None => colon_list("/usr/local/share:/usr/share"@),
    };
    match home {
        Some(h) => seq![h] + listed,
        None => listed,
    }
}

/// The user's data directory comes first, ahead of every system directory,
/// so that the user's own entries win over system entries with the same id;
/// without it the list is the system directories alone, in the same order.
pub proof fn law_the_user_directory_comes_first(h: Seq<char>, xdg: Option<Seq<char>>)
    ensures
        data_dirs_of(Some(h), xdg) == seq![h] + data_dirs_of(None, xdg),
        data_dirs_of(Some(h), xdg)[0] == h,
        data_dirs_of(Some(h), xdg).len() == data_dirs_of(None, xdg).len() + 1,
{
}

/// The directories desktop entries are searched under, in precedence order
/// (see [`data_dirs_of`]).
pub fn data_dirs(home_data: Option<&str>, xdg_data_dirs: Option<&str>) -> (r: Vec<String>)
    ensures
        r@.map_values(|d: String| d@) == data_dirs_of(
            match home_data {
                Some(h) => Some(h@),
                None => None,
            },
            match xdg_data_dirs {
                Some(x) => Some(x@),
                None => None,
            },
        ),
{
    let listed = match xdg_data_dirs {
        Some(x) => x,
        None => "/usr/local/share:/usr/share",
    };
    let v = to_chars(listed);
    let mut out: Vec<String> = Vec::new();
    let ghost start: Seq<Seq<char>> = match home_data {
        Some(h) => seq![h@],
        None => seq![],
    };
    if let Some(h) = home_data {
        out.push(h.to_string());
    }
    assert(out@.map_values(|d: String| d@) =~= start);
    let mut cur: Vec<char> = Vec::new();
    let mut i: usize = 0;
    assert(v@.take(0) =~= Seq::<char>::empty());
    while i < v.len()
        invariant
            i <= v.len(),
            v@ == listed@,
            (out@.map_values(|d: String| d@), cur@) == (start + colon_acc(v@.take(i as int)).0, colon_acc(
                v@.take(i as int),
            ).1),
        decreases v.len() - i,
    {
        assert(v@.take(i + 1).drop_last() =~= v@.take(i as int));
        let c = v[i];
        if c == ':' {
            if cur.len() > 0 {
                let ghost before = out@.map_values(|d: String| d@);
                let d = string_from(&cur);
                out.push(d);
                assert(out@.map_values(|d: String| d@) =~= before.push(cur@));
                cur = Vec::new();
            }
        } else {
            cur.push(c);
        }
        i += 1;
    }
    assert(v@.take(i as int) =~= v@);
    if cur.len() > 0 {
        let ghost before = out@.map_values(|d: String| d@);
        let d = string_from(&cur);
        out.push(d);
        assert(out@.map_values(|d: String| d@) =~= before.push(cur@));
    }
    out
}

/// `a` sorts no later than `b` in `String`'s order: character by character,
/// by code point, a prefix before what it is a prefix of.
pub open spec fn name_le(a: Seq<char>, b: Seq<char>) -> bool
    decreases a.len(),
{
    if a.len() == 0 {
        true
    } else if b.len() == 0 {
        false
    } else if (a[0] as u32) != (b[0] as u32) {
        (a[0] as u32) < (b[0] as u32)
    } else {
        name_le(a.drop_first(), b.drop_first())
    }
}

/// Any two names are ordered one way or the other.
proof fn lemma_name_le_total(a: Seq<char>, b: Seq<char>)
    ensures
        name_le(a, b) || name_le(b, a),
    decreases a.len(),
{
    if a.len() > 0 && b.len() > 0 && (a[0] as u32) == (b[0] as u32) {
        lemma_name_le_total(a.drop_first(), b.drop_first());
    }
}

/// The order on names is transitive.
proof fn lemma_name_le_trans(a: Seq<char>, b: Seq<char>, c: Seq<char>)
    requires
        name_le(a, b),
        name_le(b, c),
    ensures
        name_le(a, c),
    decreases a.len(),
{
    if a.len() > 0 && b.len() > 0 && c.len() > 0 && (a[0] as u32) == (b[0] as u32) && (b[0] as u32)
        == (c[0] as u32) {
        lemma_name_le_trans(a.drop_first(), b.drop_first(), c.drop_first());
    }
}

/// Whether `a` sorts no later than `b` (see [`name_le`]).
fn name_le_exec(a: &Vec<char>, b: &Vec<char>) -> (r: bool)
    ensures
        r == name_le(a@, b@),
{
    let mut i: usize = 0;
    assert(a@.skip(0) == a@ && b@.skip(0) == b@);
    while i < a.len() && i < b.len() && (a[i] as u32) == (b[i] as u32)
        invariant
            i <= a.len(),
            i <= b.len(),
            name_le(a@, b@) == name_le(a@.skip(i as int), b@.skip(i as int)),
        decreases a.len() - i,
    {
        assert(a@.skip(i as int).drop_first() == a@.skip(i + 1));
        assert(b@.skip(i as int).drop_first() == b@.skip(i + 1));
        i += 1;
    }
    if i == a.len() {
        true
    } else if i == b.len() {
        false
    } else {
        assert(a@.skip(i as int)[0] == a@[i as int] && b@.skip(i as int)[0] == b@[i as int]);
        (a[i] as u32) < (b[i] as u32)
    }
}

/// The views of a list of entries.
pub open spec fn app_views(s: Seq<DesktopEntry>) -> Seq<EntryView> {
    s.map_values(|e: DesktopEntry| e@)
}

/// The entries of `found`, in the order found, each id once: the first
/// entry found for an id wins.
pub open spec fn first_by_id(found: Seq<EntryView>) -> Seq<EntryView>
    decreases found.len(),
{
    if found.len() == 0 {
        Seq::empty()
    } else {
        let prev = first_by_id(found.drop_last());
        if exists|k: int| 0 <= k < prev.len() && prev[k].id == found.last().id {
            prev
        } else {
            prev.push(found.last())
        }
    }
}

/// Sorted by name.
pub open spec fn by_name(s: Seq<EntryView>) -> bool {
    forall|i: int, j: int| 0 <= i < j < s.len() ==> name_le(s[i].name, s[j].name)
}

/// A copy of `e`.
fn copy_entry(e: &DesktopEntry) -> (r: DesktopEntry)
    ensures
        r@ == e@,
{
    DesktopEntry {
        name: e.name.clone(),
        command: e.command.clone(),
        comment: e.comment.clone(),
        terminal: e.terminal,
        id: e.id.clone(),
    }
}

/// The installed applications, from the entries a scan parsed, in the order
/// it found them (directories in precedence order): each desktop file id
/// once, the entry from the directory that outranks the others winning, and
/// the list sorted by name.
pub fn installed_apps(found: &Vec<DesktopEntry>) -> (r: Vec<DesktopEntry>)
    ensures
        app_views(r@).to_multiset() == first_by_id(app_views(found@)).to_multiset(),
        by_name(app_views(r@)),
{
    broadcast use vstd::seq_lib::to_multiset_insert;

    let ghost fv = app_views(found@);
    let mut kept: Vec<DesktopEntry> = Vec::new();
    let mut i: usize = 0;
    assert(fv.take(0) =~= Seq::<EntryView>::empty());
    assert(app_views(kept@) =~= Seq::<EntryView>::empty());
    while i < found.len()
        invariant
            i <= found@.len(),
            fv == app_views(found@),
            app_views(kept@) == first_by_id(fv.take(i as int)),
        decreases found.len() - i,
    {
        assert(fv.take(i + 1).drop_last() == fv.take(i as int));
        assert(fv.take(i + 1).last() == found@[i as int]@);
        let ghost prev = app_views(kept@);
        let id = to_chars(found[i].id.as_str());
        let mut dup = false;
        let mut j: usize = 0;
        while j < kept.len()
            invariant
                j <= kept@.len(),
                prev == app_views(kept@),
                id@ == found@[i as int].id@,
                dup == exists|k: int| 0 <= k < j && prev[k].id == id@,
            decreases kept.len() - j,
        {
            if eq_lit(&id, kept[j].id.as_str()) {
                dup = true;
            }
            assert(prev[j as int].id == kept@[j as int].id@);
            j += 1;
        }
        if !dup {
            let e = copy_entry(&found[i]);
            kept.push(e);
            assert(app_views(kept@) =~= prev.push(found@[i as int]@));
        }
        i += 1;
    }
    assert(fv.take(found.len() as int) == fv);
    let ghost kv = app_views(kept@);
    let mut out: Vec<DesktopEntry> = Vec::new();
    let mut n: usize = 0;
    assert(kv.take(0) =~= Seq::<EntryView>::empty());
    assert(app_views(out@) =~= Seq::<EntryView>::empty());
    while n < kept.len()
        invariant
            n <= kept@.len(),
            kv == app_views(kept@),
            app_views(out@).to_multiset() == kv.take(n as int).to_multiset(),
            by_name(app_views(out@)),
        decreases kept.len() - n,
    {
        let e = copy_entry(&kept[n]);
        let en = to_chars(e.name.as_str());
        let ghost v = app_views(out@);
        let mut p: usize = 0;
        while p < out.len() && name_le_exec(&to_chars(out[p].name.as_str()), &en)
            invariant
                p <= out@.len(),
                v == app_views(out@),
                en@ == e.name@,
                forall|q: int| 0 <= q < p ==> name_le(#[trigger] v[q].name, e.name@),
            decreases out.len() - p,
        {
            p += 1;
        }
        proof {
            if p < v.len() {
                lemma_name_le_total(v[p as int].name, e.name@);
            }
        }
        let ghost ev = e@;
        out.insert(p, e);
        let ghost w = app_views(out@);
        assert(w =~= v.insert(p as int, ev));
        assert(ev == kv[n as int]);
        assert(w.to_multiset() == v.to_multiset().insert(ev)) by {
            vstd::seq_lib::to_multiset_insert(v, p as int, ev);
        }
        assert forall|a: int, b: int| 0 <= a < b < w.len() implies name_le(w[a].name, w[b].name) by {
            if b < p {
            } else if b == p {
                assert(w[a] == v[a]);
            } else if a < p {
                assert(w[a] == v[a] && w[b] == v[b - 1]);
            } else if a == p {
                assert(w[b] == v[b - 1]);
                if b - 1 > p {
                    lemma_name_le_trans(ev.name, v[p as int].name, v[b - 1].name);
                }
            } else {
                assert(w[a] == v[a - 1] && w[b] == v[b - 1]);
            }
        }
        assert(kv.take(n + 1) =~= kv.take(n as int).push(kv[n as int]));
        assert(kv.take(n as int).push(kv[n as int]).to_multiset() == kv.take(n as int).to_multiset().insert(kv[n as int])) by {
            vstd::seq_lib::to_multiset_build(kv.take(n as int), kv[n as int]);
        }
        n += 1;
    }
    assert(kv.take(kept.len() as int) == kv);
    out
}

} // verus!
