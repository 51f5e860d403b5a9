//! The recently opened IntelliJ projects, read from the IDE's
//! `recentProjects.xml`.

use vstd::prelude::*;

use crate::config::texts;
use crate::domain::first_n;
use crate::text::{chars_of, line_ranges, lines_of, same_text};

verus! {

broadcast use vstd::string::group_string_axioms;

/// `s` starts with `p`.
pub open spec fn starts_with(s: Seq<char>, p: Seq<char>) -> bool {
    p.len() <= s.len() && s.take(p.len() as int) == p
}

/// Where `p` first occurs in `s` (`str::find`).
pub open spec fn find_text(s: Seq<char>, p: Seq<char>) -> Option<nat>
    decreases s.len(),
{
    if starts_with(s, p) {
        Some(0)
    } else if s.len() == 0 {
        None
    } else {
        match find_text(s.drop_first(), p) {
            Some(k) => Some(k + 1),
            None => None,
        }
    }
}

/// An occurrence that `find_text` gives lies inside the text.
pub proof fn lemma_find_text_bounds(s: Seq<char>, p: Seq<char>)
    ensures
        find_text(s, p) matches Some(k) ==> k + p.len() <= s.len() && starts_with(
            s.skip(k as int),
            p,
        ),
    decreases s.len(),
{
    if !starts_with(s, p) && s.len() > 0 {
        lemma_find_text_bounds(s.drop_first(), p);
        if let Some(k) = find_text(s.drop_first(), p) {
            assert(s.drop_first().skip(k as int) =~= s.skip((k + 1) as int));
        }
    } else if starts_with(s, p) {
        assert(s.skip(0) =~= s);
    }
}

/// Whether `pattern` occurs in `chars` at `at`.
fn occurs_at(chars: &Vec<char>, pattern: &Vec<char>, at: usize) -> (r: bool)
    requires
        at <= chars@.len(),
    ensures
        r == starts_with(chars@.skip(at as int), pattern@),
{
    if pattern.len() > chars.len() - at {
        return false;
    }
    let mut k: usize = 0;
    while k < pattern.len()
        invariant
            at + pattern@.len() <= chars@.len(),
            at + pattern.len() <= chars.len(),
            0 <= k <= pattern@.len(),
            forall|m: int| 0 <= m < k ==> chars@[at + m] == pattern@[m],
        decreases pattern@.len() - k,
    {
        assert(at + k < chars@.len());
        if chars[at + k] != pattern[k] {
            assert(chars@.skip(at as int).take(pattern@.len() as int)[k as int] != pattern@[k as int]);
            return false;
        }
        k = k + 1;
    }
    assert(chars@.skip(at as int).take(pattern@.len() as int) =~= pattern@);
    true
}

/// Where `pattern` first occurs in `chars` at or after `from`.
fn find_from(chars: &Vec<char>, pattern: &Vec<char>, from: usize) -> (r: Option<usize>)
    requires
        from <= chars@.len(),
    ensures
        match find_text(chars@.skip(from as int), pattern@) {
            Some(k) => r matches Some(j) && j == from + k,
            None => r is None,
        },
{
    let n = chars.len();
    let mut i = from;
    while i < n
        invariant
            n == chars@.len(),
            from <= i <= n,
            find_text(chars@.skip(from as int), pattern@) == match find_text(
                chars@.skip(i as int),
                pattern@,
            ) {
                Some(k) => Some((k + (i - from)) as nat),
                None => None,
            },
        decreases n - i,
    {
        if occurs_at(chars, pattern, i) {
            return Some(i);
        }
        assert(chars@.skip(i as int).drop_first() =~= chars@.skip(i + 1));
        i = i + 1;
    }
    if occurs_at(chars, pattern, n) {
        Some(n)
    } else {
        assert(chars@.skip(n as int).len() == 0);
        None
    }
}

/// The value of the attribute `attribute` in an XML line: what stands
/// between `attribute="` and the next `"`.
pub open spec fn xml_attribute(line: Seq<char>, attribute: Seq<char>) -> Option<Seq<char>> {
    let pattern = attribute + seq!['=', '"'];
    match find_text(line, pattern) {
        None => None,
        Some(i) => {
            let start = (i + pattern.len()) as int;
            match find_text(line.skip(start), seq!['"']) {
                None => None,
                Some(e) => Some(line.subrange(start, start + e)),
            }
        },
    }
}

/// The value of the attribute `attribute` in the XML line `line`.
pub fn extract_xml_attribute(line: &str, attribute: &str) -> (value: Option<String>)
    ensures
        match xml_attribute(line@, attribute@) {
            Some(v) => value matches Some(s) && s@ == v,
            None => value is None,
        },
{
    let chars = chars_of(line);
    let mut pattern = chars_of(attribute);
    pattern.push('=');
    pattern.push('"');
    assert(pattern@ =~= attribute@ + seq!['=', '"']);
    assert(chars@.skip(0) =~= chars@);
    let found = find_from(&chars, &pattern, 0);
    let i = match found {
        Some(i) => i,
        None => {
            assert(find_text(line@, attribute@ + seq!['=', '"']) is None);
            return None;
        },
    };
    assert(find_text(line@, attribute@ + seq!['=', '"']) == Some(i as nat));
    proof {
        lemma_find_text_bounds(chars@, pattern@);
    }
    let n = chars.len();
    assert(i + pattern@.len() <= n);
    let start = i + pattern.len();
    let mut quote: Vec<char> = Vec::new();
    quote.push('"');
    assert(quote@ =~= seq!['"']);
    let end = match find_from(&chars, &quote, start) {
        Some(e) => e,
        None => return None,
    };
    proof {
        lemma_find_text_bounds(chars@.skip(start as int), quote@);
    }
    Some(String::from_str(line.substring_char(start, end)))
}

/// `s` with every occurrence of `pattern`, from left to right and not
/// overlapping, replaced by `replacement` (`str::replace`, for a pattern
/// that is not empty).
pub open spec fn replace_all(s: Seq<char>, pattern: Seq<char>, replacement: Seq<char>) -> Seq<
    char,
>
    decreases s.len(),
{
    if pattern.len() == 0 {
        s
    } else {
        match find_text(s, pattern) {
            None => s,
            Some(i) => {
                proof {
                    lemma_find_text_bounds(s, pattern);
                }
                s.take(i as int) + replacement + replace_all(
                    s.skip((i + pattern.len()) as int),
                    pattern,
                    replacement,
                )
            },
        }
    }
}

/// The marker that IntelliJ writes for the user's home directory.
pub open spec fn user_home_marker() -> Seq<char> {
    "$USER_HOME$"@
}

/// A path from IntelliJ's files with `$USER_HOME$` replaced by `home`; with
/// no home known, the path as it is.
pub open spec fn expanded_path(path: Seq<char>, home: Option<Seq<char>>) -> Seq<char> {
    match home {
        Some(h) => replace_all(path, user_home_marker(), h),
        None => path,
    }
}

/// `path` with `$USER_HOME$` replaced by the user's home directory, when it is known.
pub fn expand_user_home(path: &str, home: Option<&str>) -> (expanded: String)
    ensures
        expanded@ == expanded_path(
            path@,
            match home {
                Some(h) => Some(h@),
                None => None,
            },
        ),
{
    let home_text = match home {
        Some(h) => h,
        None => return String::from_str(path),
    };
    let chars = chars_of(path);
    let marker = chars_of("$USER_HOME$");
    proof {
        reveal_strlit("$USER_HOME$");
    }
    let ghost s = path@;
    let ghost p = marker@;
    let ghost h = home_text@;
    let n = chars.len();
    let mut expanded = String::new();
    let mut pos: usize = 0;
    assert(s.skip(0) =~= s);
    loop
        invariant
            chars@ == s,
            s == path@,
            h == home_text@,
            home == Some(home_text),
            marker@ == p,
            p == user_home_marker(),
            p.len() == 11,
            n == s.len(),
            pos <= n,
            replace_all(s, p, h) == expanded@ + replace_all(s.skip(pos as int), p, h),
        decreases n - pos,
    {
        match find_from(&chars, &marker, pos) {
            None => {
                proof {
                    assert(replace_all(s.skip(pos as int), p, h) == s.skip(pos as int));
                    assert(s.skip(pos as int) =~= s.subrange(pos as int, n as int));
                }
                expanded.append(path.substring_char(pos, n));
                return expanded;
            },
            Some(i) => {
                proof {
                    lemma_find_text_bounds(s.skip(pos as int), p);
                    assert(s.skip(pos as int).take(i - pos) =~= s.subrange(pos as int, i as int));
                    assert(s.skip(pos as int).skip(i - pos + 11) =~= s.skip(i + 11));
                }
                expanded.append(path.substring_char(pos, i));
                expanded.append(home_text);
                pos = i + 11;
            },
        }
    }
}


/// The position of the last `/` of `s`, or -1.
pub open spec fn last_slash(s: Seq<char>) -> int
    decreases s.len(),
{
    if s.len() == 0 {
        -1
    } else if s.last() == '/' {
        s.len() - 1
    } else {
        last_slash(s.drop_last())
    }
}

/// The last slash lies inside the text, and nothing after it is a slash.
pub proof fn lemma_last_slash(s: Seq<char>)
    ensures
        -1 <= last_slash(s) < s.len(),
        last_slash(s) >= 0 ==> s[last_slash(s)] == '/',
        forall|i: int| last_slash(s) < i < s.len() ==> s[i] != '/',
    decreases s.len(),
{
    if s.len() > 0 && s.last() != '/' {
        lemma_last_slash(s.drop_last());
        assert forall|i: int| last_slash(s) < i < s.len() implies s[i] != '/' by {
            if i < s.len() - 1 {
                assert(s[i] == s.drop_last()[i]);
            }
        }
    }
}

/// The name of the file or directory that a Unix path names, as
/// `Path::file_name` gives it: its last component, where empty components
/// and `.` do not count; none for a path that ends in `..`, or that has no
/// such component (`/`, `.`, the empty path).
pub open spec fn file_name(path: Seq<char>) -> Option<Seq<char>>
    decreases path.len(),
{
    if path.len() == 0 {
        None
    } else if path.last() == '/' {
        file_name(path.drop_last())
    } else {
        let k = last_slash(path);
        let part = path.skip(k + 1);
        if part == seq!['.'] {
            proof {
                lemma_last_slash(path);
            }
            file_name(path.take(k + 1))
        } else if part == seq!['.', '.'] {
            None
        } else {
            Some(part)
        }
    }
}

/// The name of the file or directory that the Unix path `path` names.
pub fn file_name_of(path: &str) -> (name: Option<String>)
    ensures
        match file_name(path@) {
            Some(n) => name matches Some(s) && s@ == n,
            None => name is None,
        },
{
    let chars = chars_of(path);
    let mut end = chars.len();
    assert(path@.take(end as int) =~= path@);
    loop
        invariant
            chars@ == path@,
            end <= chars@.len(),
            file_name(path@) == file_name(path@.take(end as int)),
        decreases end,
    {
        if end == 0 {
            return None;
        }
        let ghost s = path@.take(end as int);
        if chars[end - 1] == '/' {
            assert(s.drop_last() =~= path@.take(end - 1));
            end = end - 1;
        } else {
            let mut start = end - 1;
            while start > 0 && chars[start - 1] != '/'
                invariant
                    start < end <= chars@.len(),
                    forall|i: int| start <= i < end ==> chars@[i] != '/',
                decreases start,
            {
                start = start - 1;
            }
            proof {
                lemma_last_slash(s);
                if start > 0 {
                    assert(s[start - 1] == '/');
                }
                assert(last_slash(s) == start - 1) by {
                    if last_slash(s) < start - 1 {
                        assert(s[start - 1] == '/');
                    } else if last_slash(s) > start - 1 {
                        assert(s[last_slash(s)] == '/');
                        assert(chars@[last_slash(s)] == '/');
                    }
                }
                assert(s.skip(start as int) =~= chars@.subrange(start as int, end as int));
            }
            if end - start == 1 && chars[start] == '.' {
                assert(chars@.subrange(start as int, end as int) =~= seq!['.']);
                assert(s.take(start as int) =~= path@.take(start as int));
                end = start;
            } else if end - start == 2 && chars[start] == '.' && chars[start + 1] == '.' {
                assert(chars@.subrange(start as int, end as int) =~= seq!['.', '.']);
                return None;
            } else {
                assert(chars@.subrange(start as int, end as int) != seq!['.']) by {
                    if end - start == 1 {
                        assert(chars@.subrange(start as int, end as int)[0] == chars@[start as int]);
                    }
                }
                assert(chars@.subrange(start as int, end as int) != seq!['.', '.']) by {
                    if end - start == 2 {
                        assert(chars@.subrange(start as int, end as int)[0] == chars@[start as int]);
                        assert(chars@.subrange(start as int, end as int)[1] == chars@[start + 1]);
                    }
                }
                return Some(String::from_str(path.substring_char(start, end)));
            }
        }
    }
}


/// What marks a project entry in `recentProjects.xml`.
pub open spec fn entry_marker() -> Seq<char> {
    "<entry key="@
}

/// The project name that a line of `recentProjects.xml` gives: for an
/// entry line, the file name of its `key` path, with `$USER_HOME$` replaced.
pub open spec fn project_of_line(line: Seq<char>, home: Option<Seq<char>>) -> Option<Seq<char>> {
    if find_text(line, entry_marker()) is None {
        None
    } else {
        match xml_attribute(line, "key"@) {
            None => None,
            Some(p) => file_name(expanded_path(p, home)),
        }
    }
}

/// The project names of `lines`, each once, in the order they first occur.
pub open spec fn project_names(lines: Seq<Seq<char>>, home: Option<Seq<char>>) -> Seq<Seq<char>>
    decreases lines.len(),
{
    if lines.len() == 0 {
        seq![]
    } else {
        let before = project_names(lines.drop_last(), home);
        match project_of_line(lines.last(), home) {
            Some(n) => if before.contains(n) {
                before
            } else {
                before.push(n)
            },
            None => before,
        }
    }
}

/// The `limit` projects named last, the last first.
pub open spec fn recent_projects(content: Seq<char>, home: Option<Seq<char>>, limit: nat) -> Seq<
    Seq<char>,
> {
    first_n(project_names(lines_of(content), home).reverse(), limit)
}


/// No name occurs twice in `s`.
pub open spec fn distinct(s: Seq<Seq<char>>) -> bool {
    forall|i: int, j: int| 0 <= i < j < s.len() ==> s[i] != s[j]
}

proof fn lemma_project_names_distinct(lines: Seq<Seq<char>>, home: Option<Seq<char>>)
    ensures
        distinct(project_names(lines, home)),
    decreases lines.len(),
{
    if lines.len() > 0 {
        lemma_project_names_distinct(lines.drop_last(), home);
        let before = project_names(lines.drop_last(), home);
        if let Some(n) = project_of_line(lines.last(), home) {
            if !before.contains(n) {
                let after = before.push(n);
                assert forall|i: int, j: int| 0 <= i < j < after.len() implies after[i]
                    != after[j] by {
                    if j == before.len() {
                        assert(after[i] == before[i]);
                    }
                }
            }
        }
    }
}

/// The recent projects are each listed once, at most `limit` of them.
pub proof fn lemma_recent_projects_distinct(
    content: Seq<char>,
    home: Option<Seq<char>>,
    limit: nat,
)
    ensures
        distinct(recent_projects(content, home, limit)),
        recent_projects(content, home, limit).len() <= limit,
{
    let names = project_names(lines_of(content), home);
    lemma_project_names_distinct(lines_of(content), home);
    let r = names.reverse();
    assert(distinct(r)) by {
        assert forall|i: int, j: int| 0 <= i < j < r.len() implies r[i] != r[j] by {
            assert(r[i] == names[names.len() - 1 - i]);
            assert(r[j] == names[names.len() - 1 - j]);
        }
    }
}

/// Whether one of `names` is `name`.
fn names_contain(names: &Vec<String>, name: &str) -> (r: bool)
    ensures
        r == texts(names@).contains(name@),
{
    let mut i: usize = 0;
    while i < names.len()
        invariant
            0 <= i <= names@.len(),
            forall|k: int| 0 <= k < i ==> names@[k]@ != name@,
        decreases names@.len() - i,
    {
        if same_text(names[i].as_str(), name) {
            assert(texts(names@)[i as int] == name@);
            return true;
        }
        i = i + 1;
    }
    assert forall|k: int| 0 <= k < texts(names@).len() implies texts(names@)[k] != name@ by {
        assert(texts(names@)[k] == names@[k]@);
    }
    false
}

/// Whether `text` holds `pattern`.
fn holds_text(text: &str, pattern: &str) -> (r: bool)
    ensures
        r == (find_text(text@, pattern@) is Some),
{
    let chars = chars_of(text);
    let pattern_chars = chars_of(pattern);
    assert(chars@.skip(0) =~= chars@);
    find_from(&chars, &pattern_chars, 0).is_some()
}

/// The last `limit` projects of the IDE's list of recent projects
/// `content`, the last first; `home` is the user's home directory, if known.
pub fn recent_intellij_projects(content: &str, home: Option<&str>, limit: usize) -> (projects: Vec<
    String,
>)
    ensures
        texts(projects@) == recent_projects(
            content@,
            match home {
                Some(h) => Some(h@),
                None => None,
            },
            limit as nat,
        ),
{
    let ghost home_text = match home {
        Some(h) => Some(h@),
        None => None,
    };
    let chars = chars_of(content);
    let ranges = line_ranges(&chars);
    let ghost lines = lines_of(chars@);
    let mut names: Vec<String> = Vec::new();
    let mut i: usize = 0;
    while i < ranges.len()
        invariant
            chars@ == content@,
            lines == lines_of(chars@),
            home_text == match home {
                Some(h) => Some(h@),
                None => None::<Seq<char>>,
            },
            ranges@.len() == lines.len(),
            forall|k: int|
                0 <= k < ranges@.len() ==> {
                    let (a, b) = #[trigger] ranges@[k];
                    &&& a <= b <= chars@.len()
                    &&& chars@.subrange(a as int, b as int) == lines[k]
                },
            0 <= i <= ranges@.len(),
            texts(names@) == project_names(lines.take(i as int), home_text),
        decreases ranges@.len() - i,
    {
        let (from, to) = ranges[i];
        let line = content.substring_char(from, to);
        assert(lines.take(i + 1).drop_last() =~= lines.take(i as int));
        assert(lines.take(i + 1).last() == line@);
        proof {
            reveal_strlit("<entry key=");
        }
        if holds_text(line, "<entry key=") {
            if let Some(path) = extract_xml_attribute(line, "key") {
                let expanded = expand_user_home(path.as_str(), home);
                if let Some(name) = file_name_of(expanded.as_str()) {
                    if !names_contain(&names, name.as_str()) {
                        names.push(name);
                        assert(texts(names@) =~= project_names(lines.take(i as int), home_text).push(
                            name@,
                        ));
                    }
                }
            }
        }
        i = i + 1;
    }
    assert(lines.take(lines.len() as int) =~= lines);
    let ghost all = texts(names@);
    let mut projects: Vec<String> = Vec::new();
    let n = names.len();
    let mut j: usize = 0;
    while j < n && j < limit
        invariant
            n == names@.len(),
            all == texts(names@),
            0 <= j <= n,
            j <= limit,
            texts(projects@) == all.reverse().take(j as int),
        decreases n - j,
    {
        let ghost before = projects@;
        let name = names[n - 1 - j].clone();
        projects.push(name);
        assert(projects@ == before.push(name));
        assert(texts(projects@) =~= texts(before).push(name@));
        assert(all.reverse()[j as int] == all[n - 1 - j]);
        assert(all[n - 1 - j] == names@[n - 1 - j]@);
        assert(texts(projects@) =~= all.reverse().take(j + 1));
        j = j + 1;
    }
    assert(all.reverse().len() == n);
    if j == n {
        assert(all.reverse().take(n as int) =~= all.reverse());
    }
    assert(texts(projects@) =~= first_n(all.reverse(), limit as nat));
    projects
}

} // verus!
