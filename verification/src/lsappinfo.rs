//! Reading the output of `lsappinfo`, the platform's application-information
//! tool: the frontmost application, the processes of a bundle, and the list
//! of running applications.

use vstd::prelude::*;
use vstd::string::*;
use crate::accessibility::{opt_app_view, AppInfo, AppInfoView};
use crate::scan::{
    field_after, opt_chars_view, parse_i32, parsed_i32, second_field, strip_prefix, stripped_of,
    trim_matches, without_prefix,
};
use crate::text::{
    char_views, chars_of, find_from, find_in, is_prefix, is_whitespace, matches_at, slice_chars,
    lines_of_chars, string_of, strip_leading, text_lines, trim_chars, trimmed, white_space,
};

verus! {

/// The lines of a text, each without the whitespace around it.
pub open spec fn trimmed_lines(text: Seq<char>) -> Seq<Seq<char>> {
    text_lines(text).map_values(|l: Seq<char>| trimmed(l))
}

/// The value of a line `key=value`: what follows the key, without the
/// quotes around it.
pub open spec fn quoted_value(line: Seq<char>, key: Seq<char>) -> Option<Seq<char>> {
    match without_prefix(line, key) {
        Some(rest) => Some(stripped_of(rest, '"')),
        None => None,
    }
}

/// The value of the last of the lines that begin with `key`.
pub open spec fn last_value(lines: Seq<Seq<char>>, key: Seq<char>) -> Option<Seq<char>>
    decreases lines.len(),
{
    if lines.len() == 0 {
        None
    } else {
        match quoted_value(lines.last(), key) {
            Some(v) => Some(v),
            None => last_value(lines.drop_last(), key),
        }
    }
}

/// The bundle identifier and the name that an `lsappinfo info` answer
/// reports: the values of its `"bundleid"` and `"name"` lines. An answer
/// without a name gives the bundle identifier as the name; one without a
/// bundle identifier gives nothing.
pub open spec fn bundle_and_name(output: Seq<char>) -> Option<(Seq<char>, Seq<char>)> {
    let lines = trimmed_lines(output);
    match (last_value(lines, "\"bundleid\"="@), last_value(lines, "\"name\"="@)) {
        (Some(b), Some(n)) => Some((b, n)),
        (Some(b), None) => Some((b, b)),
        _ => None,
    }
}

/// The lines of a text, each trimmed.
pub fn lines_of(text: &str) -> (lines: Vec<Vec<char>>)
    ensures
        char_views(lines@) == trimmed_lines(text@),
{
    let v = chars_of(text);
    let raw = lines_of_chars(&v);
    let mut lines: Vec<Vec<char>> = Vec::new();
    let mut i: usize = 0;
    while i < raw.len()
        invariant
            i <= raw@.len(),
            lines@.len() == i,
            forall|j: int| 0 <= j < i ==> lines@[j]@ == trimmed(#[trigger] raw@[j]@),
        decreases raw@.len() - i,
    {
        lines.push(trim_chars(&raw[i]));
        i += 1;
    }
    proof {
        assert forall|j: int| 0 <= j < lines@.len() implies char_views(lines@)[j] == trimmed_lines(
            text@,
        )[j] by {
            assert(char_views(raw@)[j] == raw@[j]@);
        }
        assert(char_views(lines@) =~= trimmed_lines(text@));
    }
    lines
}

/// The value of the last of the lines that begin with `key`.
pub fn value_of(lines: &Vec<Vec<char>>, key: &str) -> (r: Option<Vec<char>>)
    ensures
        opt_chars_view(r) == last_value(char_views(lines@), key@),
{
    let k = chars_of(key);
    let ghost all = char_views(lines@);
    let mut found: Option<Vec<char>> = None;
    let mut i: usize = 0;
    assert(all.take(0).len() == 0);
    while i < lines.len()
        invariant
            i <= lines@.len(),
            all == char_views(lines@),
            k@ == key@,
            opt_chars_view(found) == last_value(all.take(i as int), key@),
        decreases lines@.len() - i,
    {
        proof {
            let next = all.take(i + 1);
            assert(next.drop_last() == all.take(i as int));
            assert(next.last() == lines@[i as int]@);
        }
        match strip_prefix(&lines[i], &k) {
            Some(rest) => {
                found = Some(trim_matches(&rest, '"'));
            },
            None => {},
        }
        i += 1;
    }
    assert(all.take(lines@.len() as int) == all);
    found
}

/// The view of an optional pair of strings.
pub open spec fn opt_names_view(o: Option<(String, String)>) -> Option<(Seq<char>, Seq<char>)> {
    match o {
        Some(p) => Some((p.0@, p.1@)),
        None => None,
    }
}

/// Reads the bundle identifier and the name from an `lsappinfo info`
/// answer.
pub fn parse_lsappinfo_output(output: &str) -> (r: Option<(String, String)>)
    ensures
        opt_names_view(r) == bundle_and_name(output@),
{
    let lines = lines_of(output);
    let bundle = value_of(&lines, "\"bundleid\"=");
    let name = value_of(&lines, "\"name\"=");
    match (bundle, name) {
        (Some(b), Some(n)) => Some((string_of(&b), string_of(&n))),
        (Some(b), None) => Some((string_of(&b), string_of(&b))),
        _ => None,
    }
}

/// The process identifier that a line `"pid"=number` reports, where the
/// number reads as one.
pub open spec fn pid_of_line(line: Seq<char>) -> Option<i32> {
    match without_prefix(line, "\"pid\"="@) {
        Some(rest) => parsed_i32(trimmed(rest)),
        None => None,
    }
}

/// The process identifiers that an answer reports, one for each `"pid"`
/// line, in order.
pub open spec fn pids_reported(output: Seq<char>) -> Seq<i32> {
    text_lines(output).filter_map(|l: Seq<char>| pid_of_line(l))
}

/// Reads the process identifiers from an `lsappinfo info -only pid` answer.
pub fn parse_pids(output: &str) -> (pids: Vec<i32>)
    ensures
        pids@ == pids_reported(output@),
{
    let v = chars_of(output);
    let lines = lines_of_chars(&v);
    let key = chars_of("\"pid\"=");
    let ghost all = char_views(lines@);
    let ghost f = |l: Seq<char>| pid_of_line(l);
    let mut pids: Vec<i32> = Vec::new();
    let mut i: usize = 0;
    assert(all.take(0).filter_map(f) =~= Seq::<i32>::empty());
    while i < lines.len()
        invariant
            i <= lines@.len(),
            all == char_views(lines@),
            key@ == "\"pid\"="@,
            f == (|l: Seq<char>| pid_of_line(l)),
            pids@ == all.take(i as int).filter_map(f),
        decreases lines@.len() - i,
    {
        proof {
            all.lemma_filter_map_take_succ(f, i as int);
            assert(all[i as int] == lines@[i as int]@);
        }
        let pid = match strip_prefix(&lines[i], &key) {
            Some(rest) => parse_i32(&trim_chars(&rest)),
            None => None,
        };
        match pid {
            Some(p) => {
                assert(pids@.push(p) =~= pids@ + seq![p]);
                pids.push(p);
            },
            None => {
                assert(pids@ + Seq::<i32>::empty() =~= pids@);
            },
        }
        i += 1;
    }
    assert(all.take(lines@.len() as int) == all);
    pids
}

/// The application that an answer names, where the front application is
/// asked for: the answer without the whitespace around it, if anything is
/// left.
pub open spec fn front_asn(output: Seq<char>) -> Option<Seq<char>> {
    if trimmed(output).len() == 0 {
        None
    } else {
        Some(trimmed(output))
    }
}

/// Reads the serial number of the frontmost application from the answer of
/// `lsappinfo front`.
pub fn parse_front_asn(output: &str) -> (r: Option<String>)
    ensures
        crate::text::opt_str_view(r) == front_asn(output@),
{
    let t = trim_chars(&chars_of(output));
    if t.len() == 0 {
        None
    } else {
        Some(string_of(&t))
    }
}

/// What was read of an application so far.
pub struct Fields {
    pub pid: Option<i32>,
    pub bundle_id: Option<Seq<char>>,
    pub name: Option<Seq<char>>,
}

/// The field of a line, after its `=`, without the quotes around it.
pub open spec fn unquoted_field(line: Seq<char>) -> Option<Seq<char>> {
    match second_field(line, '=') {
        Some(v) => Some(stripped_of(v, '"')),
        None => None,
    }
}

/// The number in the field of a line, after its `=`.
pub open spec fn number_field(line: Seq<char>) -> Option<i32> {
    match second_field(line, '=') {
        Some(v) => parsed_i32(v),
        None => None,
    }
}

/// What is known after one more line of an `lsappinfo info` answer: a
/// `"pid"` line sets the process, a `"CFBundleIdentifier"` line the bundle, a
/// `"LSDisplayName"` or `"name"` line the name; the last line of a kind
/// decides.
pub open spec fn read_line(fields: Fields, line: Seq<char>) -> Fields {
    if is_prefix("\"pid\"="@, line) {
        Fields { pid: number_field(line), ..fields }
    } else if is_prefix("\"CFBundleIdentifier\"="@, line) {
        Fields { bundle_id: unquoted_field(line), ..fields }
    } else if is_prefix("\"LSDisplayName\"="@, line) || is_prefix("\"name\"="@, line) {
        Fields { name: unquoted_field(line), ..fields }
    } else {
        fields
    }
}

/// What is known after the lines.
pub open spec fn read_lines(lines: Seq<Seq<char>>) -> Fields
    decreases lines.len(),
{
    if lines.len() == 0 {
        Fields { pid: None, bundle_id: None, name: None }
    } else {
        read_line(read_lines(lines.drop_last()), lines.last())
    }
}

/// The application that the fields describe: one needs a process; a
/// missing bundle identifier is empty, a missing name is `Unknown`.
pub open spec fn app_of(fields: Fields) -> Option<AppInfoView> {
    match fields.pid {
        Some(pid) => Some(
            AppInfoView {
                pid,
                bundle_id: match fields.bundle_id {
                    Some(b) => b,
                    None => Seq::empty(),
                },
                name: match fields.name {
                    Some(n) => n,
                    None => "Unknown"@,
                },
            },
        ),
        None => None,
    }
}

/// The application that an `lsappinfo info` answer describes.
pub open spec fn app_described(info: Seq<char>) -> Option<AppInfoView> {
    app_of(read_lines(trimmed_lines(info)))
}

/// The field of a line, after its `=`, without the quotes around it.
fn unquoted_field_of(line: &Vec<char>) -> (r: Option<Vec<char>>)
    ensures
        opt_chars_view(r) == unquoted_field(line@),
{
    match field_after(line, '=') {
        Some(v) => Some(trim_matches(&v, '"')),
        None => None,
    }
}

/// The number in the field of a line, after its `=`.
fn number_field_of(line: &Vec<char>) -> (r: Option<i32>)
    ensures
        r == number_field(line@),
{
    match field_after(line, '=') {
        Some(v) => parse_i32(&v),
        None => None,
    }
}

/// Whether `line` begins with `key`.
fn begins_with(line: &Vec<char>, key: &str) -> (r: bool)
    ensures
        r == is_prefix(key@, line@),
{
    let k = chars_of(key);
    assert(line@.skip(0) == line@);
    matches_at(line, 0, &k)
}

/// Reads the frontmost application from the answer of `lsappinfo info
/// -only bundleid,pid,name`.
pub fn parse_app_info(info: &str) -> (r: Option<AppInfo>)
    ensures
        opt_app_view(r) == app_described(info@),
{
    let lines = lines_of(info);
    let ghost all = char_views(lines@);
    let mut pid: Option<i32> = None;
    let mut bundle_id: Option<Vec<char>> = None;
    let mut name: Option<Vec<char>> = None;
    let mut i: usize = 0;
    assert(all.take(0).len() == 0);
    while i < lines.len()
        invariant
            i <= lines@.len(),
            all == char_views(lines@),
            read_lines(all.take(i as int)) == (Fields {
                pid,
                bundle_id: opt_chars_view(bundle_id),
                name: opt_chars_view(name),
            }),
        decreases lines@.len() - i,
    {
        proof {
            let next = all.take(i + 1);
            assert(next.drop_last() == all.take(i as int));
            assert(next.last() == lines@[i as int]@);
        }
        let line = &lines[i];
        if begins_with(line, "\"pid\"=") {
            pid = number_field_of(line);
        } else if begins_with(line, "\"CFBundleIdentifier\"=") {
            bundle_id = unquoted_field_of(line);
        } else if begins_with(line, "\"LSDisplayName\"=") || begins_with(line, "\"name\"=") {
            name = unquoted_field_of(line);
        }
        i += 1;
    }
    assert(all.take(lines@.len() as int) == all);
    match pid {
        Some(pid) => Some(
            AppInfo {
                pid,
                bundle_id: match bundle_id {
                    Some(b) => string_of(&b),
                    None => String::new(),
                },
                name: match name {
                    Some(n) => string_of(&n),
                    None => "Unknown".to_owned(),
                },
            },
        ),
        None => None,
    }
}

/// Whether `pat` occurs in `s`.
pub open spec fn occurs(pat: Seq<char>, s: Seq<char>) -> bool {
    find_from(s, pat, 0) >= 0
}

/// Whether `pat` occurs in `line`.
fn has(line: &Vec<char>, pat: &str) -> (r: bool)
    ensures
        r == occurs(pat@, line@),
{
    let p = chars_of(pat);
    find_in(line, &p, 0).is_some()
}

/// The process that an `lsappinfo info -only pid` answer reports: the
/// number in the first line that holds `"pid"=`.
pub open spec fn pid_reported(lines: Seq<Seq<char>>) -> Option<i32>
    decreases lines.len(),
{
    if lines.len() == 0 {
        None
    } else if occurs("\"pid\"="@, lines[0]) {
        number_field(lines[0])
    } else {
        pid_reported(lines.drop_first())
    }
}

/// Reads the process of one application from the answer of `lsappinfo info
/// -only pid`.
pub fn parse_pid(output: &str) -> (r: Option<i32>)
    ensures
        r == pid_reported(text_lines(output@)),
{
    let v = chars_of(output);
    let lines = lines_of_chars(&v);
    let ghost all = char_views(lines@);
    let mut i: usize = 0;
    assert(all.skip(0) == all);
    while i < lines.len()
        invariant
            i <= lines@.len(),
            all == char_views(lines@),
            all == text_lines(output@),
            pid_reported(all) == pid_reported(all.skip(i as int)),
        decreases lines@.len() - i,
    {
        proof {
            assert(all.skip(i as int)[0] == lines@[i as int]@);
            assert(all.skip(i as int).drop_first() == all.skip(i + 1));
        }
        if has(&lines[i], "\"pid\"=") {
            return number_field_of(&lines[i]);
        }
        i += 1;
    }
    None
}

/// The index of the first whitespace character of `s`, or its length.
pub open spec fn first_space(s: Seq<char>) -> int
    decreases s.len(),
{
    if s.len() == 0 || white_space(s[0]) {
        0
    } else {
        1 + first_space(s.drop_first())
    }
}

/// The first word of `s`: what stands before the first whitespace, once
/// leading whitespace is left out; `None` where nothing is left.
pub open spec fn first_word(s: Seq<char>) -> Option<Seq<char>> {
    let t = strip_leading(s);
    if t.len() == 0 {
        None
    } else {
        Some(t.take(first_space(t)))
    }
}

/// The first word of a line.
pub fn first_word_of(line: &Vec<char>) -> (r: Option<Vec<char>>)
    ensures
        opt_chars_view(r) == first_word(line@),
{
    let n = line.len();
    let mut start: usize = 0;
    assert(line@.skip(0) == line@);
    while start < n && is_whitespace(line[start])
        invariant
            start <= n,
            n == line@.len(),
            strip_leading(line@) == strip_leading(line@.skip(start as int)),
        decreases n - start,
    {
        assert(line@.skip(start as int).drop_first() == line@.skip(start + 1));
        start += 1;
    }
    let ghost t = line@.skip(start as int);
    assert(strip_leading(t) == t);
    if start == n {
        return None;
    }
    let mut end: usize = start;
    assert(t.skip(0) == t);
    while end < n && !is_whitespace(line[end])
        invariant
            start <= end <= n,
            n == line@.len(),
            t == line@.skip(start as int),
            first_space(t) == (end - start) + first_space(t.skip(end - start)),
        decreases n - end,
    {
        assert(t.skip(end - start)[0] == line@[end as int]);
        assert(t.skip(end - start).drop_first() == t.skip(end - start + 1));
        end += 1;
    }
    proof {
        if end < n {
            assert(t.skip(end - start)[0] == line@[end as int]);
        }
        assert(first_space(t.skip(end - start)) == 0);
        assert(t.take(end - start) == line@.subrange(start as int, end as int));
    }
    Some(slice_chars(line, start, end))
}

/// What the scan of an application list keeps: the serial number of the
/// application whose lines are being read, and the serial numbers found so
/// far.
pub struct AsnScan {
    pub current: Option<Seq<char>>,
    pub found: Seq<Seq<char>>,
}

/// Whether a line of the list begins an application.
pub open spec fn begins_entry(line: Seq<char>) -> bool {
    is_prefix("ASN:"@, line) || occurs(") \""@, line)
}

/// The bundle identifier that a line of the list reports, where it holds
/// one: the field after its first `=`, without quotes, or the empty string
/// where there is no such field.
pub open spec fn bundle_reported(line: Seq<char>) -> Option<Seq<char>> {
    if occurs("\"CFBundleIdentifier\"="@, line) {
        Some(
            match unquoted_field(line) {
                Some(b) => b,
                None => Seq::empty(),
            },
        )
    } else {
        None
    }
}

/// The scan after one more line: a line that begins an application makes
/// its first word the current serial number; a line that reports the
/// wanted bundle adds the current serial number to those found.
pub open spec fn scan_line(scan: AsnScan, line: Seq<char>, bundle_id: Seq<char>) -> AsnScan {
    let current = if begins_entry(line) {
        first_word(line)
    } else {
        scan.current
    };
    let found = if bundle_reported(line) == Some(bundle_id) && current is Some {
        scan.found.push(current->0)
    } else {
        scan.found
    };
    AsnScan { current, found }
}

/// The scan after the lines.
pub open spec fn scan_lines(lines: Seq<Seq<char>>, bundle_id: Seq<char>) -> AsnScan
    decreases lines.len(),
{
    if lines.len() == 0 {
        AsnScan { current: None, found: Seq::empty() }
    } else {
        scan_line(scan_lines(lines.drop_last(), bundle_id), lines.last(), bundle_id)
    }
}

/// The serial numbers of the applications of a bundle in an `lsappinfo
/// list` answer, in order.
pub fn asns_of_bundle(list: &str, bundle_id: &str) -> (asns: Vec<String>)
    ensures
        crate::text::views(asns@) == scan_lines(trimmed_lines(list@), bundle_id@).found,
{
    let lines = lines_of(list);
    let wanted = chars_of(bundle_id);
    let ghost all = char_views(lines@);
    let mut current: Option<Vec<char>> = None;
    let mut asns: Vec<String> = Vec::new();
    let mut i: usize = 0;
    assert(all.take(0).len() == 0);
    assert(crate::text::views(asns@) =~= Seq::<Seq<char>>::empty());
    while i < lines.len()
        invariant
            i <= lines@.len(),
            all == char_views(lines@),
            wanted@ == bundle_id@,
            scan_lines(all.take(i as int), bundle_id@) == (AsnScan {
                current: opt_chars_view(current),
                found: crate::text::views(asns@),
            }),
        decreases lines@.len() - i,
    {
        proof {
            let next = all.take(i + 1);
            assert(next.drop_last() == all.take(i as int));
            assert(next.last() == lines@[i as int]@);
        }
        let line = &lines[i];
        if begins_with(line, "ASN:") || has(line, ") \"") {
            current = first_word_of(line);
        }
        if has(line, "\"CFBundleIdentifier\"=") {
            let reported = match unquoted_field_of(line) {
                Some(b) => b,
                None => Vec::new(),
            };
            assert(bundle_reported(line@) == Some(reported@));
            if crate::text::chars_eq(&reported, &wanted) {
                match &current {
                    Some(asn) => {
                        let s = string_of(asn);
                        assert(crate::text::views(asns@.push(s)) =~= crate::text::views(asns@).push(
                            asn@,
                        ));
                        asns.push(s);
                    },
                    None => {},
                }
            }
        }
        i += 1;
    }
    assert(all.take(lines@.len() as int) == all);
    asns
}

/// What the scan of an application list keeps of the application whose
/// lines are being read.
pub struct Entry {
    pub name: Option<Seq<char>>,
    pub pid: Option<i32>,
    pub bundle_id: Option<Seq<char>>,
}

/// The scan of an application list: the application being read, if one has
/// begun, and the applications that are complete.
pub struct ListScan {
    pub current: Option<Entry>,
    pub apps: Seq<AppInfoView>,
}

/// Whether a line of the list is the head of an application: it holds both
/// `) "` and `ASN:`.
pub open spec fn is_head(line: Seq<char>) -> bool {
    occurs(") \""@, line) && occurs("ASN:"@, line)
}

/// The application that an entry makes, where it is complete: it has a
/// process and a bundle identifier that is not empty; a missing name is
/// `Unknown`.
pub open spec fn complete(entry: Option<Entry>) -> Option<AppInfoView> {
    match entry {
        Some(e) => match (e.pid, e.bundle_id) {
            (Some(pid), Some(bundle_id)) => if bundle_id.len() > 0 {
                Some(
                    AppInfoView {
                        pid,
                        bundle_id,
                        name: match e.name {
                            Some(n) => n,
                            None => "Unknown"@,
                        },
                    },
                )
            } else {
                None
            },
            _ => None,
        },
        None => None,
    }
}

/// The applications with the entry added, where it is complete.
pub open spec fn with_entry(apps: Seq<AppInfoView>, entry: Option<Entry>) -> Seq<AppInfoView> {
    match complete(entry) {
        Some(a) => apps.push(a),
        None => apps,
    }
}

/// The scan after one more line. The head of an application closes the
/// one before it and begins a new one, named by what stands between the
/// first two quotes. Within an application, a `"pid"` line sets its process
/// and a `"CFBundleIdentifier"` line its bundle.
pub open spec fn list_line(scan: ListScan, line: Seq<char>) -> ListScan {
    let opened = if is_head(line) {
        ListScan {
            current: Some(Entry { name: second_field(line, '"'), pid: None, bundle_id: None }),
            apps: with_entry(scan.apps, scan.current),
        }
    } else {
        scan
    };
    match opened.current {
        Some(e) => if is_prefix("\"pid\"="@, line) {
            ListScan { current: Some(Entry { pid: number_field(line), ..e }), ..opened }
        } else if is_prefix("\"CFBundleIdentifier\"="@, line) {
            ListScan { current: Some(Entry { bundle_id: unquoted_field(line), ..e }), ..opened }
        } else {
            opened
        },
        None => opened,
    }
}

/// The scan after the lines.
pub open spec fn list_lines(lines: Seq<Seq<char>>) -> ListScan
    decreases lines.len(),
{
    if lines.len() == 0 {
        ListScan { current: None, apps: Seq::empty() }
    } else {
        list_line(list_lines(lines.drop_last()), lines.last())
    }
}

/// The running applications that an `lsappinfo list` answer describes.
pub open spec fn apps_listed(list: Seq<char>) -> Seq<AppInfoView> {
    let scan = list_lines(trimmed_lines(list));
    with_entry(scan.apps, scan.current)
}

/// The views of a list of applications.
pub open spec fn app_views(apps: Seq<AppInfo>) -> Seq<AppInfoView> {
    apps.map_values(|a: AppInfo| a@)
}

/// An application being read.
struct Pending {
    name: Option<Vec<char>>,
    pid: Option<i32>,
    bundle_id: Option<Vec<char>>,
}

impl View for Pending {
    type V = Entry;

    closed spec fn view(&self) -> Entry {
        Entry {
            name: opt_chars_view(self.name),
            pid: self.pid,
            bundle_id: opt_chars_view(self.bundle_id),
        }
    }
}

/// The view of an optional entry.
spec fn opt_entry_view(o: Option<Pending>) -> Option<Entry> {
    match o {
        Some(p) => Some(p@),
        None => None,
    }
}

/// Adds the entry to the applications, where it is complete.
fn close_entry(apps: &mut Vec<AppInfo>, entry: &Option<Pending>)
    ensures
        app_views(final(apps)@) == with_entry(app_views(old(apps)@), opt_entry_view(*entry)),
{
    match entry {
        Some(e) => match (&e.pid, &e.bundle_id) {
            (Some(pid), Some(bundle_id)) => {
                if bundle_id.len() > 0 {
                    let app = AppInfo {
                        pid: *pid,
                        bundle_id: string_of(bundle_id),
                        name: match &e.name {
                            Some(n) => string_of(n),
                            None => "Unknown".to_owned(),
                        },
                    };
                    assert(app_views(apps@.push(app)) =~= app_views(apps@).push(app@));
                    apps.push(app);
                }
            },
            _ => {},
        },
        None => {},
    }
}

/// Reads the running applications from the answer of `lsappinfo list`.
pub fn parse_app_list(list: &str) -> (apps: Vec<AppInfo>)
    ensures
        app_views(apps@) == apps_listed(list@),
{
    let lines = lines_of(list);
    let ghost all = char_views(lines@);
    let mut current: Option<Pending> = None;
    let mut apps: Vec<AppInfo> = Vec::new();
    let mut i: usize = 0;
    assert(all.take(0).len() == 0);
    assert(app_views(apps@) =~= Seq::<AppInfoView>::empty());
    while i < lines.len()
        invariant
            i <= lines@.len(),
            all == char_views(lines@),
            list_lines(all.take(i as int)) == (ListScan {
                current: opt_entry_view(current),
                apps: app_views(apps@),
            }),
        decreases lines@.len() - i,
    {
        proof {
            let next = all.take(i + 1);
            assert(next.drop_last() == all.take(i as int));
            assert(next.last() == lines@[i as int]@);
        }
        let line = &lines[i];
        if has(line, ") \"") && has(line, "ASN:") {
            close_entry(&mut apps, &current);
            current = Some(Pending { name: field_after(line, '"'), pid: None, bundle_id: None });
        }
        current = match current {
            Some(e) => {
                if begins_with(line, "\"pid\"=") {
                    Some(Pending { name: e.name, pid: number_field_of(line), bundle_id: e.bundle_id })
                } else if begins_with(line, "\"CFBundleIdentifier\"=") {
                    Some(Pending { name: e.name, pid: e.pid, bundle_id: unquoted_field_of(line) })
                } else {
                    Some(e)
                }
            },
            None => None,
        };
        i += 1;
    }
    assert(all.take(lines@.len() as int) == all);
    close_entry(&mut apps, &current);
    apps
}

} // verus!
