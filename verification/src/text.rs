//! Character-level building blocks: Unicode whitespace, trimming, and the
//! splitting of a text into lines.

use vstd::prelude::*;

verus! {

broadcast use vstd::string::group_string_axioms;

/// `c` has the Unicode `White_Space` property (what `char::is_whitespace` tests).
pub open spec fn is_whitespace(c: char) -> bool {
    let n = c as u32;
    ||| 0x09 <= n <= 0x0D
    ||| n == 0x20
    ||| n == 0x85
    ||| n == 0xA0
    ||| n == 0x1680
    ||| 0x2000 <= n <= 0x200A
    ||| n == 0x2028
    ||| n == 0x2029
    ||| n == 0x202F
    ||| n == 0x205F
    ||| n == 0x3000
}

/// Decides `is_whitespace`.
pub fn is_whitespace_char(c: char) -> (b: bool)
    ensures
        b == is_whitespace(c),
{
    let n = c as u32;
    (0x09 <= n && n <= 0x0D) || n == 0x20 || n == 0x85 || n == 0xA0 || n == 0x1680 || (0x2000
        <= n && n <= 0x200A) || n == 0x2028 || n == 0x2029 || n == 0x202F || n == 0x205F || n
        == 0x3000
}

/// Every character of `s` is whitespace.
pub open spec fn all_whitespace(s: Seq<char>) -> bool {
    forall|i: int| 0 <= i < s.len() ==> is_whitespace(#[trigger] s[i])
}

/// The number of whitespace characters at the start of `s`.
pub open spec fn leading_whitespace(s: Seq<char>) -> nat
    decreases s.len(),
{
    if s.len() > 0 && is_whitespace(s[0]) {
        1 + leading_whitespace(s.drop_first())
    } else {
        0
    }
}

/// The number of whitespace characters at the end of `s`.
pub open spec fn trailing_whitespace(s: Seq<char>) -> nat
    decreases s.len(),
{
    if s.len() > 0 && is_whitespace(s.last()) {
        1 + trailing_whitespace(s.drop_last())
    } else {
        0
    }
}

/// Leading and trailing whitespace never exceed the text.
pub proof fn lemma_whitespace_bounds(s: Seq<char>)
    ensures
        leading_whitespace(s) <= s.len(),
        trailing_whitespace(s) <= s.len(),
    decreases s.len(),
{
    if s.len() > 0 {
        lemma_whitespace_bounds(s.drop_first());
        lemma_whitespace_bounds(s.drop_last());
    }
}

/// `s` without its leading whitespace (`str::trim_start`).
pub open spec fn trim_start(s: Seq<char>) -> Seq<char> {
    s.skip(leading_whitespace(s) as int)
}

/// `s` without its trailing whitespace (`str::trim_end`).
pub open spec fn trim_end(s: Seq<char>) -> Seq<char> {
    s.take(s.len() - trailing_whitespace(s))
}

/// `s` without leading and trailing whitespace (`str::trim`).
pub open spec fn trim(s: Seq<char>) -> Seq<char> {
    trim_end(trim_start(s))
}

/// The first `k` characters are whitespace and the next one, if any, is not:
/// then `k` is the length of the leading whitespace.
pub proof fn lemma_leading_whitespace(s: Seq<char>, k: int)
    requires
        0 <= k <= s.len(),
        forall|i: int| 0 <= i < k ==> is_whitespace(#[trigger] s[i]),
        k == s.len() || !is_whitespace(s[k]),
    ensures
        leading_whitespace(s) == k,
    decreases k,
{
    if k > 0 {
        let t = s.drop_first();
        assert forall|i: int| 0 <= i < k - 1 implies is_whitespace(#[trigger] t[i]) by {
            assert(t[i] == s[i + 1]);
        }
        lemma_leading_whitespace(t, k - 1);
    }
}

/// The last `k` characters are whitespace and the one before them, if any,
/// is not: then `k` is the length of the trailing whitespace.
pub proof fn lemma_trailing_whitespace(s: Seq<char>, k: int)
    requires
        0 <= k <= s.len(),
        forall|i: int| s.len() - k <= i < s.len() ==> is_whitespace(#[trigger] s[i]),
        k == s.len() || !is_whitespace(s[s.len() - k - 1]),
    ensures
        trailing_whitespace(s) == k,
    decreases k,
{
    if k > 0 {
        let t = s.drop_last();
        assert forall|i: int| t.len() - (k - 1) <= i < t.len() implies is_whitespace(
            #[trigger] t[i],
        ) by {
            assert(t[i] == s[i]);
        }
        lemma_trailing_whitespace(t, k - 1);
    }
}

/// Trimming leaves nothing exactly when the text is all whitespace.
pub proof fn lemma_trim_empty(s: Seq<char>)
    ensures
        trim(s).len() == 0 <==> all_whitespace(s),
    decreases s.len(),
{
    if s.len() > 0 && is_whitespace(s[0]) {
        let t = s.drop_first();
        lemma_trim_empty(t);
        assert(leading_whitespace(s) == 1 + leading_whitespace(t));
        lemma_whitespace_bounds(t);
        assert(trim_start(s) =~= trim_start(t));
        if all_whitespace(t) {
            assert forall|i: int| 0 <= i < s.len() implies is_whitespace(#[trigger] s[i]) by {
                if i > 0 {
                    assert(s[i] == t[i - 1]);
                }
            }
        }
        if all_whitespace(s) {
            assert forall|i: int| 0 <= i < t.len() implies is_whitespace(#[trigger] t[i]) by {
                assert(t[i] == s[i + 1]);
            }
        }
    } else if s.len() > 0 {
        let u = trim_start(s);
        assert(u =~= s);
        assert(!all_whitespace(s)) by {
            assert(!is_whitespace(s[0]));
        }
        assert(trailing_whitespace(u) < u.len()) by {
            lemma_trailing_below_first_non_ws(u);
        }
    }
}

/// A whitespace character added at the end of a text survives its leading
/// whitespace only when the text holds something else.
pub proof fn lemma_trim_start_push_whitespace(s: Seq<char>, w: char)
    requires
        is_whitespace(w),
    ensures
        all_whitespace(s) ==> trim_start(s.push(w)).len() == 0 && trim_start(s).len() == 0,
        !all_whitespace(s) ==> trim_start(s.push(w)) == trim_start(s).push(w),
    decreases s.len(),
{
    lemma_whitespace_bounds(s);
    if s.len() == 0 {
        assert(s.push(w)[0] == w);
        assert(s.push(w).drop_first().len() == 0);
        assert(leading_whitespace(s.push(w).drop_first()) == 0);
        assert(leading_whitespace(s.push(w)) == 1);
    } else if is_whitespace(s[0]) {
        let t = s.drop_first();
        lemma_trim_start_push_whitespace(t, w);
        lemma_whitespace_bounds(t);
        lemma_whitespace_bounds(t.push(w));
        assert(s.push(w)[0] == s[0]);
        assert(s.push(w).drop_first() =~= t.push(w));
        assert(leading_whitespace(s.push(w)) == 1 + leading_whitespace(t.push(w)));
        assert(trim_start(s) =~= trim_start(t));
        assert(trim_start(s.push(w)) =~= trim_start(t.push(w)));
        if all_whitespace(s) {
            assert forall|i: int| 0 <= i < t.len() implies is_whitespace(#[trigger] t[i]) by {
                assert(t[i] == s[i + 1]);
            }
        } else {
            assert(!all_whitespace(t)) by {
                if all_whitespace(t) {
                    assert forall|i: int| 0 <= i < s.len() implies is_whitespace(#[trigger] s[i]) by {
                        if i > 0 {
                            assert(s[i] == t[i - 1]);
                        }
                    }
                }
            }
        }
    } else {
        assert(!all_whitespace(s)) by {
            assert(!is_whitespace(s[0]));
        }
        assert(s.push(w)[0] == s[0]);
        assert(trim_start(s) =~= s);
        assert(trim_start(s.push(w)) =~= s.push(w));
    }
}

/// Trimming ignores a whitespace character added at the end.
pub proof fn lemma_trim_push_whitespace(s: Seq<char>, w: char)
    requires
        is_whitespace(w),
    ensures
        trim(s.push(w)) == trim(s),
{
    lemma_trim_start_push_whitespace(s, w);
    if all_whitespace(s) {
        lemma_trim_empty(s);
        assert(trim_start(s.push(w)) =~= Seq::<char>::empty());
        assert(trailing_whitespace(Seq::<char>::empty()) == 0);
        assert(trim(s.push(w)) =~= Seq::<char>::empty());
        assert(trim(s) =~= Seq::<char>::empty());
    } else {
        let u = trim_start(s);
        lemma_whitespace_bounds(u);
        assert(u.push(w).drop_last() =~= u);
        assert(trailing_whitespace(u.push(w)) == 1 + trailing_whitespace(u));
        assert(trim_end(u.push(w)) =~= trim_end(u));
    }
}

/// Trailing whitespace cannot reach past a non-whitespace first character.
proof fn lemma_trailing_below_first_non_ws(s: Seq<char>)
    requires
        s.len() > 0,
        !is_whitespace(s[0]),
    ensures
        trailing_whitespace(s) < s.len(),
    decreases s.len(),
{
    if s.len() > 1 && is_whitespace(s.last()) {
        let t = s.drop_last();
        assert(t[0] == s[0]);
        lemma_trailing_below_first_non_ws(t);
    }
}

/// The characters of `s`, in order.
pub fn chars_of(s: &str) -> (v: Vec<char>)
    ensures
        v@ == s@,
{
    let mut v: Vec<char> = Vec::new();
    for c in it: s.chars()
        invariant
            v@ == it.seq().take(it.index() as int),
    {
        v.push(c);
    }
    v
}

/// Whether `a` and `b` are the same text.
pub fn same_text(a: &str, b: &str) -> (r: bool)
    ensures
        r == (a@ == b@),
{
    let ca = chars_of(a);
    let cb = chars_of(b);
    if ca.len() != cb.len() {
        return false;
    }
    let mut i: usize = 0;
    while i < ca.len()
        invariant
            ca@ == a@,
            cb@ == b@,
            ca@.len() == cb@.len(),
            0 <= i <= ca@.len(),
            forall|k: int| 0 <= k < i ==> ca@[k] == cb@[k],
        decreases ca@.len() - i,
    {
        if ca[i] != cb[i] {
            return false;
        }
        i = i + 1;
    }
    assert(ca@ =~= cb@);
    true
}

/// `s` without leading and trailing whitespace (`str::trim`).
pub fn trimmed(s: &str) -> (r: &str)
    ensures
        r@ == trim(s@),
{
    let chars = chars_of(s);
    let start = skip_whitespace(&chars, 0, chars.len());
    let end = skip_whitespace_back(&chars, start, chars.len());
    proof {
        assert(chars@.subrange(0, chars@.len() as int) =~= s@);
    }
    s.substring_char(start, end)
}

/// The code of `c` with ASCII capitals made small.
pub open spec fn ascii_lower_code(c: char) -> u32 {
    let n = c as u32;
    if 0x41 <= n <= 0x5A {
        (n + 32) as u32
    } else {
        n
    }
}

/// `c` with ASCII capitals made small (`char::to_ascii_lowercase`).
pub open spec fn ascii_lower(c: char) -> char {
    ascii_lower_code(c) as char
}

/// `a` and `b` are the same text up to the case of ASCII letters
/// (`str::eq_ignore_ascii_case`).
pub open spec fn same_ignoring_ascii_case(a: Seq<char>, b: Seq<char>) -> bool {
    &&& a.len() == b.len()
    &&& forall|i: int| 0 <= i < a.len() ==> ascii_lower_code(#[trigger] a[i]) == ascii_lower_code(
        b[i],
    )
}

/// Decides `same_ignoring_ascii_case`.
pub fn eq_ignore_ascii_case(a: &str, b: &str) -> (r: bool)
    ensures
        r == same_ignoring_ascii_case(a@, b@),
{
    let ca = chars_of(a);
    let cb = chars_of(b);
    if ca.len() != cb.len() {
        return false;
    }
    let mut i: usize = 0;
    while i < ca.len()
        invariant
            ca@ == a@,
            cb@ == b@,
            ca@.len() == cb@.len(),
            0 <= i <= ca@.len(),
            forall|k: int| 0 <= k < i ==> ascii_lower_code(#[trigger] ca@[k]) == ascii_lower_code(
                cb@[k],
            ),
        decreases ca@.len() - i,
    {
        let x = ca[i] as u32;
        let y = cb[i] as u32;
        let lx = if 0x41 <= x && x <= 0x5A {
            x + 32
        } else {
            x
        };
        let ly = if 0x41 <= y && y <= 0x5A {
            y + 32
        } else {
            y
        };
        if lx != ly {
            return false;
        }
        i = i + 1;
    }
    true
}

/// Whether `s` holds nothing but whitespace (whether `s.trim()` is empty).
pub fn is_blank(s: &str) -> (r: bool)
    ensures
        r == all_whitespace(s@),
        r == (trim(s@).len() == 0),
{
    let chars = chars_of(s);
    let end = skip_whitespace(&chars, 0, chars.len());
    proof {
        lemma_trim_empty(s@);
        assert(chars@.subrange(0, chars@.len() as int) =~= s@);
        if end == chars.len() {
            assert forall|i: int| 0 <= i < s@.len() implies is_whitespace(#[trigger] s@[i]) by {
                lemma_leading_prefix(s@, i);
            }
        } else {
            lemma_leading_prefix(s@, end as int);
        }
    }
    end == chars.len()
}

/// The character after the leading whitespace is not whitespace, and those
/// before it are.
pub proof fn lemma_leading_prefix(s: Seq<char>, i: int)
    requires
        0 <= i < s.len(),
    ensures
        i < leading_whitespace(s) ==> is_whitespace(s[i]),
        i == leading_whitespace(s) ==> !is_whitespace(s[i]),
    decreases s.len(),
{
    if s.len() > 0 && is_whitespace(s[0]) && i > 0 {
        lemma_leading_prefix(s.drop_first(), i - 1);
    }
}

/// `a` comes no later than `b` in the order of `str`: character by
/// character, by code point, a prefix first.
pub open spec fn text_le(a: Seq<char>, b: Seq<char>) -> bool
    decreases a.len(),
{
    if a.len() == 0 {
        true
    } else if b.len() == 0 {
        false
    } else if a[0] != b[0] {
        a[0] < b[0]
    } else {
        text_le(a.drop_first(), b.drop_first())
    }
}

/// The order of times is reflexive.
pub proof fn lemma_text_le_reflexive(a: Seq<char>)
    ensures
        text_le(a, a),
    decreases a.len(),
{
    if a.len() > 0 {
        lemma_text_le_reflexive(a.drop_first());
    }
}

/// The order of times is total.
pub proof fn lemma_text_le_total(a: Seq<char>, b: Seq<char>)
    ensures
        text_le(a, b) || text_le(b, a),
    decreases a.len(),
{
    if a.len() > 0 && b.len() > 0 && a[0] == b[0] {
        lemma_text_le_total(a.drop_first(), b.drop_first());
    }
}

/// The order of times is transitive.
pub proof fn lemma_text_le_transitive(a: Seq<char>, b: Seq<char>, c: Seq<char>)
    requires
        text_le(a, b),
        text_le(b, c),
    ensures
        text_le(a, c),
    decreases a.len(),
{
    if a.len() > 0 && b.len() > 0 && c.len() > 0 && a[0] == b[0] && b[0] == c[0] {
        lemma_text_le_transitive(a.drop_first(), b.drop_first(), c.drop_first());
    }
}

/// Two times that come no later than each other are the same.
pub proof fn lemma_text_le_antisymmetric(a: Seq<char>, b: Seq<char>)
    requires
        text_le(a, b),
        text_le(b, a),
    ensures
        a == b,
    decreases a.len(),
{
    if a.len() > 0 && b.len() > 0 {
        lemma_text_le_antisymmetric(a.drop_first(), b.drop_first());
        assert(a =~= seq![a[0]] + a.drop_first());
        assert(b =~= seq![b[0]] + b.drop_first());
    }
}

/// A common prefix does not change the order of two times.
proof fn lemma_text_le_skip(a: Seq<char>, b: Seq<char>, k: int)
    requires
        0 <= k <= a.len(),
        k <= b.len(),
        forall|i: int| 0 <= i < k ==> a[i] == b[i],
    ensures
        text_le(a, b) == text_le(a.skip(k), b.skip(k)),
    decreases k,
{
    if k > 0 {
        lemma_text_le_skip(a.drop_first(), b.drop_first(), k - 1);
        assert(a.drop_first().skip(k - 1) =~= a.skip(k));
        assert(b.drop_first().skip(k - 1) =~= b.skip(k));
    } else {
        assert(a.skip(0) =~= a);
        assert(b.skip(0) =~= b);
    }
}

/// Decides `text_le` (whether `a.cmp(b)` is `Less` or `Equal`).
pub fn text_at_or_before(a: &str, b: &str) -> (r: bool)
    ensures
        r == text_le(a@, b@),
{
    let ca = chars_of(a);
    let cb = chars_of(b);
    let mut i: usize = 0;
    while i < ca.len() && i < cb.len() && ca[i] == cb[i]
        invariant
            ca@ == a@,
            cb@ == b@,
            0 <= i <= ca@.len(),
            i <= cb@.len(),
            forall|k: int| 0 <= k < i ==> ca@[k] == cb@[k],
        decreases ca@.len() - i,
    {
        i = i + 1;
    }
    proof {
        lemma_text_le_skip(ca@, cb@, i as int);
    }
    if i == ca.len() {
        true
    } else if i == cb.len() {
        false
    } else {
        ca[i] < cb[i]
    }
}

/// The end of the whitespace that starts at `from` within `chars[from..to]`.
pub fn skip_whitespace(chars: &Vec<char>, from: usize, to: usize) -> (r: usize)
    requires
        from <= to <= chars@.len(),
    ensures
        from <= r <= to,
        r - from == leading_whitespace(chars@.subrange(from as int, to as int)),
        trim_start(chars@.subrange(from as int, to as int)) == chars@.subrange(r as int, to as int),
{
    let mut r = from;
    while r < to && is_whitespace_char(chars[r])
        invariant
            from <= r <= to <= chars@.len(),
            forall|i: int| from <= i < r ==> is_whitespace(#[trigger] chars@[i]),
        decreases to - r,
    {
        r = r + 1;
    }
    proof {
        let s = chars@.subrange(from as int, to as int);
        assert forall|i: int| 0 <= i < r - from implies is_whitespace(#[trigger] s[i]) by {
            assert(s[i] == chars@[from + i]);
        }
        lemma_leading_whitespace(s, r - from);
        assert(s.skip(r - from) =~= chars@.subrange(r as int, to as int));
    }
    r
}

/// The start of the whitespace that ends at `to` within `chars[from..to]`.
pub fn skip_whitespace_back(chars: &Vec<char>, from: usize, to: usize) -> (r: usize)
    requires
        from <= to <= chars@.len(),
    ensures
        from <= r <= to,
        to - r == trailing_whitespace(chars@.subrange(from as int, to as int)),
        trim_end(chars@.subrange(from as int, to as int)) == chars@.subrange(from as int, r as int),
{
    let mut r = to;
    while r > from && is_whitespace_char(chars[r - 1])
        invariant
            from <= r <= to <= chars@.len(),
            forall|i: int| r <= i < to ==> is_whitespace(#[trigger] chars@[i]),
        decreases r - from,
    {
        r = r - 1;
    }
    proof {
        let s = chars@.subrange(from as int, to as int);
        assert forall|i: int| s.len() - (to - r) <= i < s.len() implies is_whitespace(
            #[trigger] s[i],
        ) by {
            assert(s[i] == chars@[from + i]);
        }
        if r > from {
            assert(s[s.len() - (to - r) - 1] == chars@[r - 1]);
        }
        lemma_trailing_whitespace(s, to - r);
        assert(s.take(s.len() - (to - r)) =~= chars@.subrange(from as int, r as int));
    }
    r
}

/// `line` without a final carriage return.
pub open spec fn strip_carriage_return(line: Seq<char>) -> Seq<char> {
    if line.len() > 0 && line.last() == '\r' {
        line.drop_last()
    } else {
        line
    }
}

/// The position of the first line feed in `s`, if there is one.
pub open spec fn first_newline(s: Seq<char>) -> Option<nat>
    decreases s.len(),
{
    if s.len() == 0 {
        None
    } else if s[0] == '\n' {
        Some(0)
    } else {
        match first_newline(s.drop_first()) {
            Some(k) => Some(k + 1),
            None => None,
        }
    }
}

/// A line feed found in `s` lies inside `s`, with none before it; when none
/// is found, there is none.
pub proof fn lemma_first_newline_in_bounds(s: Seq<char>)
    ensures
        first_newline(s) matches Some(k) ==> k < s.len() && s[k as int] == '\n' && forall|i: int|
            0 <= i < k ==> s[i] != '\n',
        first_newline(s) is None ==> forall|i: int| 0 <= i < s.len() ==> s[i] != '\n',
    decreases s.len(),
{
    if s.len() > 0 && s[0] != '\n' {
        let t = s.drop_first();
        lemma_first_newline_in_bounds(t);
        assert forall|i: int| 1 <= i < s.len() implies s[i] == t[i - 1] by {}
    }
}

/// The lines of `s`, as `str::lines` gives them: the text is cut after each
/// line feed; each piece loses its line feed, and then a carriage return
/// before it; a final piece with no line feed is kept as it is, and there is
/// no empty last line after a final line feed.
pub open spec fn lines_of(s: Seq<char>) -> Seq<Seq<char>>
    decreases s.len(),
{
    if s.len() == 0 {
        seq![]
    } else {
        match first_newline(s) {
            Some(k) => {
                proof {
                    lemma_first_newline_in_bounds(s);
                }
                seq![strip_carriage_return(s.take(k as int))] + lines_of(s.skip((k + 1) as int))
            },
            None => seq![s],
        }
    }
}

/// The lines of a text that ends with a line feed, followed by another
/// text, are the lines of the one followed by the lines of the other.
pub proof fn lemma_lines_concat(x: Seq<char>, y: Seq<char>)
    requires
        x.len() > 0,
        x.last() == '\n',
    ensures
        lines_of(x + y) == lines_of(x) + lines_of(y),
    decreases x.len(),
{
    lemma_first_newline_in_bounds(x);
    if first_newline(x) is None {
        assert(x[x.len() - 1] == '\n');
    }
    let k = first_newline(x)->0 as int;
    let xy = x + y;
    assert forall|i: int| 0 <= i < k implies #[trigger] xy[i] != '\n' by {
        assert(xy[i] == x[i]);
    }
    lemma_first_newline(xy, k);
    assert(xy.take(k) =~= x.take(k));
    let rest = x.skip(k + 1);
    assert(xy.skip(k + 1) =~= rest + y);
    if rest.len() == 0 {
        assert(rest + y =~= y);
        assert(lines_of(rest) =~= Seq::<Seq<char>>::empty());
        assert(lines_of(x) =~= seq![strip_carriage_return(x.take(k))]);
    } else {
        assert(rest.last() == x.last());
        lemma_lines_concat(rest, y);
    }
}

/// Locates the first line feed of `s` from a scan.
pub proof fn lemma_first_newline(s: Seq<char>, k: int)
    requires
        0 <= k <= s.len(),
        forall|i: int| 0 <= i < k ==> #[trigger] s[i] != '\n',
    ensures
        k < s.len() && s[k] == '\n' ==> first_newline(s) == Some(k as nat),
        k == s.len() ==> first_newline(s) is None,
    decreases k,
{
    if k > 0 {
        let t = s.drop_first();
        assert forall|i: int| 0 <= i < k - 1 implies #[trigger] t[i] != '\n' by {
            assert(t[i] == s[i + 1]);
        }
        lemma_first_newline(t, k - 1);
        if k < s.len() {
            assert(t[k - 1] == s[k]);
        }
    }
}

/// The line that a scan finds between `start` and a line feed at `end`.
pub proof fn lemma_lines_step(s: Seq<char>, start: int, end: int)
    requires
        0 <= start <= end < s.len(),
        forall|i: int| start <= i < end ==> #[trigger] s[i] != '\n',
        s[end] == '\n',
    ensures
        lines_of(s.skip(start)) == seq![strip_carriage_return(s.subrange(start, end))]
            + lines_of(s.skip(end + 1)),
{
    let t = s.skip(start);
    assert forall|i: int| 0 <= i < end - start implies #[trigger] t[i] != '\n' by {
        assert(t[i] == s[start + i]);
    }
    lemma_first_newline(t, end - start);
    assert(t.take(end - start) =~= s.subrange(start, end));
    assert(t.skip(end - start + 1) =~= s.skip(end + 1));
}

/// The last line that a scan finds between `start` and the end of the text.
pub proof fn lemma_lines_last(s: Seq<char>, start: int)
    requires
        0 <= start <= s.len(),
        forall|i: int| start <= i < s.len() ==> #[trigger] s[i] != '\n',
    ensures
        start < s.len() ==> lines_of(s.skip(start)) == seq![s.subrange(start, s.len() as int)],
        start == s.len() ==> lines_of(s.skip(start)) == Seq::<Seq<char>>::empty(),
{
    let t = s.skip(start);
    assert forall|i: int| 0 <= i < t.len() implies #[trigger] t[i] != '\n' by {
        assert(t[i] == s[start + i]);
    }
    lemma_first_newline(t, t.len() as int);
    assert(t =~= s.subrange(start, s.len() as int));
}

/// Where the lines of `chars` lie: for each line of `lines_of`, in order,
/// the range of `chars` that holds it.
pub fn line_ranges(chars: &Vec<char>) -> (ranges: Vec<(usize, usize)>)
    ensures
        ranges@.len() == lines_of(chars@).len(),
        forall|i: int|
            0 <= i < ranges@.len() ==> {
                let (a, b) = #[trigger] ranges@[i];
                &&& a <= b <= chars@.len()
                &&& chars@.subrange(a as int, b as int) == lines_of(chars@)[i]
            },
{
    let n = chars.len();
    let mut ranges: Vec<(usize, usize)> = Vec::new();
    let mut start: usize = 0;
    let mut i: usize = 0;
    let ghost mut done: Seq<Seq<char>> = seq![];
    assert(chars@.skip(0) =~= chars@);
    assert(done + lines_of(chars@) =~= lines_of(chars@));
    while i < n
        invariant
            n == chars@.len(),
            0 <= start <= i <= n,
            forall|k: int| start <= k < i ==> #[trigger] chars@[k] != '\n',
            lines_of(chars@) == done + lines_of(chars@.skip(start as int)),
            ranges@.len() == done.len(),
            forall|k: int|
                0 <= k < ranges@.len() ==> {
                    let (a, b) = #[trigger] ranges@[k];
                    &&& a <= b <= n
                    &&& chars@.subrange(a as int, b as int) == done[k]
                },
        decreases n - i,
    {
        if chars[i] == '\n' {
            let mut end = i;
            if end > start && chars[end - 1] == '\r' {
                end = end - 1;
            }
            proof {
                lemma_lines_step(chars@, start as int, i as int);
                let line = strip_carriage_return(chars@.subrange(start as int, i as int));
                assert(line =~= chars@.subrange(start as int, end as int));
                assert(lines_of(chars@) =~= done.push(line) + lines_of(chars@.skip(i + 1)));
                done = done.push(line);
            }
            ranges.push((start, end));
            start = i + 1;
        }
        i = i + 1;
    }
    proof {
        lemma_lines_last(chars@, start as int);
    }
    if start < n {
        proof {
            done = done.push(chars@.subrange(start as int, n as int));
        }
        ranges.push((start, n));
    }
    assert(done =~= lines_of(chars@));
    ranges
}

} // verus!
