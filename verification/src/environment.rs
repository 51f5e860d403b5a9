//! The status of the development environment: the running containers.

use vstd::prelude::*;

use crate::outside::to_ascii_lowercase;
use crate::text::{
    ascii_lower, chars_of, lemma_text_le_antisymmetric,
    lemma_text_le_reflexive, lemma_text_le_total, lemma_text_le_transitive, line_ranges, lines_of,
    same_text, text_at_or_before, text_le, trim, trimmed,
};

verus! {

broadcast use vstd::string::group_string_axioms;

/// A running container, and the engine (`docker` or `podman`) that runs it.
#[derive(Debug, Clone, PartialEq, Eq)]
pub struct ContainerInfo {
    pub name: String,
    pub engine: &'static str,
}

/// `s` with its ASCII capitals made small.
pub open spec fn lowercase(s: Seq<char>) -> Seq<char> {
    s.map_values(|c: char| ascii_lower(c))
}

/// The container names that an engine's listing gives, one per line: each
/// line trimmed and lowercased; blank lines give none.
pub open spec fn listed_names(lines: Seq<Seq<char>>) -> Seq<Seq<char>>
    decreases lines.len(),
{
    if lines.len() == 0 {
        seq![]
    } else if trim(lines.last()).len() == 0 {
        listed_names(lines.drop_last())
    } else {
        listed_names(lines.drop_last()).push(lowercase(trim(lines.last())))
    }
}

/// The containers that `engine` lists in `output` (one name per line).
pub fn containers_from_output(output: &str, engine: &'static str) -> (containers: Vec<
    ContainerInfo,
>)
    ensures
        containers@.len() == listed_names(lines_of(output@)).len(),
        forall|i: int|
            0 <= i < containers@.len() ==> (#[trigger] containers@[i]).name@ == listed_names(
                lines_of(output@),
            )[i] && containers@[i].engine == engine,
{
    let chars = chars_of(output);
    let ranges = line_ranges(&chars);
    let ghost lines = lines_of(chars@);
    let mut containers: Vec<ContainerInfo> = Vec::new();
    let mut i: usize = 0;
    while i < ranges.len()
        invariant
            chars@ == output@,
            lines == lines_of(chars@),
            ranges@.len() == lines.len(),
            forall|k: int|
                0 <= k < ranges@.len() ==> {
                    let (a, b) = #[trigger] ranges@[k];
                    &&& a <= b <= chars@.len()
                    &&& chars@.subrange(a as int, b as int) == lines[k]
                },
            0 <= i <= ranges@.len(),
            containers@.len() == listed_names(lines.take(i as int)).len(),
            forall|k: int|
                0 <= k < containers@.len() ==> (#[trigger] containers@[k]).name@ == listed_names(
                    lines.take(i as int),
                )[k] && containers@[k].engine == engine,
        decreases ranges@.len() - i,
    {
        let (from, to) = ranges[i];
        let line = output.substring_char(from, to);
        let name = trimmed(line);
        assert(lines.take(i + 1).drop_last() =~= lines.take(i as int));
        assert(lines.take(i + 1).last() == line@);
        if name.unicode_len() != 0 {
            containers.push(ContainerInfo { name: to_ascii_lowercase(name), engine });
        }
        i = i + 1;
    }
    assert(lines.take(lines.len() as int) =~= lines);
    containers
}


impl ContainerInfo {
    /// A copy of the container.
    pub fn duplicate(&self) -> (r: ContainerInfo)
        ensures
            r == *self,
    {
        ContainerInfo { name: self.name.clone(), engine: self.engine }
    }
}

/// What identifies a container: its engine, then its name.
pub open spec fn container_key(c: ContainerInfo) -> (Seq<char>, Seq<char>) {
    (c.engine@, c.name@)
}

/// The order of containers: by engine, then by name.
pub open spec fn key_le(a: (Seq<char>, Seq<char>), b: (Seq<char>, Seq<char>)) -> bool {
    ||| text_le(a.0, b.0) && a.0 != b.0
    ||| a.0 == b.0 && text_le(a.1, b.1)
}

/// `a` comes strictly before `b`.
pub open spec fn key_lt(a: (Seq<char>, Seq<char>), b: (Seq<char>, Seq<char>)) -> bool {
    key_le(a, b) && a != b
}

/// Each container of `s` comes strictly before those after it: ordered, and
/// no two the same.
pub open spec fn strictly_ordered(s: Seq<ContainerInfo>) -> bool {
    forall|i: int, j: int|
        0 <= i < j < s.len() ==> key_lt(container_key(s[i]), container_key(s[j]))
}

/// Some container of `s` has the key `k`.
pub open spec fn lists(s: Seq<ContainerInfo>, k: (Seq<char>, Seq<char>)) -> bool {
    exists|i: int| 0 <= i < s.len() && container_key(#[trigger] s[i]) == k
}

proof fn lemma_key_le_total(a: (Seq<char>, Seq<char>), b: (Seq<char>, Seq<char>))
    ensures
        key_le(a, b) || key_le(b, a),
{
    lemma_text_le_total(a.0, b.0);
    lemma_text_le_total(a.1, b.1);
}

proof fn lemma_key_le_antisymmetric(a: (Seq<char>, Seq<char>), b: (Seq<char>, Seq<char>))
    requires
        key_le(a, b),
        key_le(b, a),
    ensures
        a == b,
{
    if a.0 == b.0 {
        lemma_text_le_antisymmetric(a.1, b.1);
    } else {
        lemma_text_le_antisymmetric(a.0, b.0);
    }
}

proof fn lemma_key_lt_transitive(
    a: (Seq<char>, Seq<char>),
    b: (Seq<char>, Seq<char>),
    c: (Seq<char>, Seq<char>),
)
    requires
        key_lt(a, b),
        key_lt(b, c),
    ensures
        key_lt(a, c),
{
    if a.0 == b.0 && b.0 == c.0 {
        lemma_text_le_transitive(a.1, b.1, c.1);
        if a == c {
            lemma_text_le_antisymmetric(a.1, b.1);
        }
    } else {
        lemma_text_le_reflexive(a.0);
        lemma_text_le_reflexive(b.0);
        lemma_text_le_transitive(a.0, b.0, c.0);
        if a.0 == c.0 {
            lemma_text_le_antisymmetric(a.0, b.0);
        }
    }
}

/// Whether `a` comes strictly before `b`.
fn comes_before(a: &ContainerInfo, b: &ContainerInfo) -> (r: bool)
    ensures
        r == key_lt(container_key(*a), container_key(*b)),
{
    if !same_text(a.engine, b.engine) {
        text_at_or_before(a.engine, b.engine)
    } else {
        text_at_or_before(a.name.as_str(), b.name.as_str()) && !same_text(
            a.name.as_str(),
            b.name.as_str(),
        )
    }
}

/// Putting a container at the place where it is strictly between its
/// neighbours keeps the order and adds its key.
proof fn lemma_insert_container(r: Seq<ContainerInfo>, c: ContainerInfo, j: int)
    requires
        strictly_ordered(r),
        0 <= j <= r.len(),
        forall|k: int| j <= k < r.len() ==> key_lt(container_key(c), container_key(#[trigger] r[k])),
        j > 0 ==> key_lt(container_key(r[j - 1]), container_key(c)),
    ensures
        strictly_ordered(r.insert(j, c)),
        forall|k: (Seq<char>, Seq<char>)| #[trigger]
            lists(r.insert(j, c), k) <==> (lists(r, k) || k == container_key(c)),
{
    let n = r.insert(j, c);
    assert forall|a: int, b: int| 0 <= a < b < n.len() implies key_lt(
        container_key(n[a]),
        container_key(n[b]),
    ) by {
        if b < j {
            assert(n[a] == r[a] && n[b] == r[b]);
        } else if b == j {
            assert(n[a] == r[a]);
            if a < j - 1 {
                lemma_key_lt_transitive(container_key(r[a]), container_key(r[j - 1]), container_key(c));
            }
        } else if a < j {
            assert(n[a] == r[a] && n[b] == r[b - 1]);
        } else if a == j {
            assert(n[b] == r[b - 1]);
        } else {
            assert(n[a] == r[a - 1] && n[b] == r[b - 1]);
        }
    }
    assert forall|k: (Seq<char>, Seq<char>)| #[trigger]
        lists(n, k) <==> (lists(r, k) || k == container_key(c)) by {
        if lists(n, k) {
            let i = choose|i: int| 0 <= i < n.len() && container_key(#[trigger] n[i]) == k;
            if i < j {
                assert(n[i] == r[i]);
            } else if i > j {
                assert(n[i] == r[i - 1]);
            }
        }
        if lists(r, k) {
            let i = choose|i: int| 0 <= i < r.len() && container_key(#[trigger] r[i]) == k;
            if i < j {
                assert(n[i] == r[i]);
            } else {
                assert(n[i + 1] == r[i]);
            }
        }
        if k == container_key(c) {
            assert(n[j] == c);
        }
    }
}

/// The containers of both engines, ordered by engine and then by name, each
/// listed once.
pub fn running_containers(docker: Vec<ContainerInfo>, podman: Vec<ContainerInfo>) -> (running:
    Vec<ContainerInfo>)
    ensures
        strictly_ordered(running@),
        forall|k: (Seq<char>, Seq<char>)| #[trigger]
            lists(running@, k) <==> lists(docker@ + podman@, k),
{
    let mut all = docker;
    let mut more = podman;
    let ghost both = all@ + more@;
    all.append(&mut more);
    assert(all@ == both);
    let mut running: Vec<ContainerInfo> = Vec::new();
    let mut i: usize = 0;
    while i < all.len()
        invariant
            all@ == both,
            0 <= i <= all@.len(),
            strictly_ordered(running@),
            forall|k: (Seq<char>, Seq<char>)| #[trigger]
                lists(running@, k) <==> lists(all@.take(i as int), k),
        decreases all@.len() - i,
    {
        let c = all[i].duplicate();
        let mut j = running.len();
        while j > 0 && comes_before(&c, &running[j - 1])
            invariant
                0 <= j <= running@.len(),
                forall|k: int|
                    j <= k < running@.len() ==> key_lt(
                        container_key(c),
                        container_key(#[trigger] running@[k]),
                    ),
            decreases j,
        {
            j = j - 1;
        }
        let ghost before = running@;
        proof {
            if j > 0 {
                lemma_key_le_total(container_key(c), container_key(running@[j - 1]));
            }
        }
        if j > 0 && same_text(running[j - 1].engine, c.engine) && same_text(
            running[j - 1].name.as_str(),
            c.name.as_str(),
        ) {
            assert(container_key(running@[j - 1]) == container_key(c));
        } else {
            running.insert(j, c);
            proof {
                lemma_insert_container(before, c, j as int);
            }
        }
        assert forall|k: (Seq<char>, Seq<char>)| #[trigger]
            lists(running@, k) <==> lists(all@.take(i + 1), k) by {
            let t = all@.take(i + 1);
            assert(t[i as int] == c);
            if lists(t, k) {
                let x = choose|x: int| 0 <= x < t.len() && container_key(#[trigger] t[x]) == k;
                if x < i {
                    assert(all@.take(i as int)[x] == t[x]);
                }
            }
            if lists(all@.take(i as int), k) {
                let x = choose|x: int|
                    0 <= x < i && container_key(#[trigger] all@.take(i as int)[x]) == k;
                assert(t[x] == all@.take(i as int)[x]);
            }
            if k == container_key(c) && j > 0 && container_key(before[j - 1]) == k {
                assert(lists(before, k));
            }
        }
        i = i + 1;
    }
    assert(all@.take(all@.len() as int) =~= all@);
    running
}

/// One line of the status text: `"name@engine": "UP"`, indented by two
/// spaces, with a comma unless it is the last.
pub open spec fn status_entry(c: ContainerInfo, last: bool) -> Seq<char> {
    "  \""@ + c.name@ + "@"@ + c.engine@ + "\": \"UP\""@ + if last {
        Seq::<char>::empty()
    } else {
        ","@
    }
}

/// The status lines of the first containers of a list of `total`, each
/// followed by a line feed.
pub open spec fn status_entries(containers: Seq<ContainerInfo>, total: nat) -> Seq<char>
    decreases containers.len(),
{
    if containers.len() == 0 {
        seq![]
    } else {
        status_entries(containers.drop_last(), total) + status_entry(
            containers.last(),
            containers.len() == total,
        ) + "\n"@
    }
}

/// The running containers as a JSON-like object, one container per line.
pub open spec fn status_text(containers: Seq<ContainerInfo>) -> Seq<char> {
    "{"@ + "\n"@ + status_entries(containers, containers.len()) + "}"@
}

/// The line of the `i`-th of the containers `cs`: `"name@engine": "UP"`,
/// indented by two spaces, then a comma when another container follows,
/// then a line feed.
pub open spec fn status_line(cs: Seq<ContainerInfo>, i: int) -> Seq<char> {
    "  \""@ + cs[i].name@ + "@"@ + cs[i].engine@ + "\": \"UP\""@ + (if i + 1 < cs.len() {
        ","@
    } else {
        Seq::<char>::empty()
    }) + "\n"@
}

proof fn lemma_status_entries_lines(cs: Seq<ContainerInfo>, m: nat)
    requires
        m <= cs.len(),
    ensures
        status_entries(cs.take(m as int), cs.len()) == Seq::new(
            m,
            |i: int| status_line(cs, i),
        ).flatten_alt(),
    decreases m,
{
    if m > 0 {
        lemma_status_entries_lines(cs, (m - 1) as nat);
        let t = cs.take(m as int);
        assert(t.drop_last() =~= cs.take(m - 1));
        assert(t.last() == cs[m - 1]);
        let f = Seq::new(m, |i: int| status_line(cs, i));
        assert(f.drop_last() =~= Seq::new((m - 1) as nat, |i: int| status_line(cs, i)));
        assert(f.last() == status_line(cs, m - 1));
        assert(status_entry(cs[m - 1], t.len() == cs.len()) + "\n"@ =~= status_line(cs, m - 1));
    }
}

/// The status text lists the containers in their order, one line each, and
/// every line but the last ends with a comma: it is `{`, a line feed, the
/// line of each container by its index, and `}`.
pub proof fn lemma_status_text_by_index(cs: Seq<ContainerInfo>)
    ensures
        status_text(cs) == "{"@ + "\n"@ + Seq::new(cs.len(), |i: int| status_line(cs, i)).flatten()
            + "}"@,
{
    lemma_status_entries_lines(cs, cs.len());
    assert(cs.take(cs.len() as int) =~= cs);
    Seq::new(cs.len(), |i: int| status_line(cs, i)).lemma_flatten_and_flatten_alt_are_equivalent();
}

/// The running containers as a JSON-like object, one container per line.
pub fn running_containers_json_like(containers: &[ContainerInfo]) -> (text: String)
    ensures
        text@ == status_text(containers@),
{
    let n = containers.len();
    let mut text = String::from_str("{");
    text.append("\n");
    let ghost head = text@;
    let mut i: usize = 0;
    while i < n
        invariant
            n == containers@.len(),
            0 <= i <= n,
            text@ == head + status_entries(containers@.take(i as int), n as nat),
        decreases n - i,
    {
        let container = &containers[i];
        text.append("  \"");
        text.append(container.name.as_str());
        text.append("@");
        text.append(container.engine);
        text.append("\": \"UP\"");
        if i + 1 != n {
            text.append(",");
        }
        text.append("\n");
        assert(containers@.take(i + 1).drop_last() =~= containers@.take(i as int));
        assert(text@ =~= head + status_entries(containers@.take(i + 1), n as nat));
        i = i + 1;
    }
    text.append("}");
    assert(containers@.take(n as int) =~= containers@);
    text
}

} // verus!
