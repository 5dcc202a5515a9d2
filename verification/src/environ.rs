//! Environment variables of a process, kept sorted by name.

use vstd::prelude::*;

use vstd::utf8::{encode_utf8, is_char_boundary};

use crate::text::chars_of;

verus! {

broadcast use vstd::seq_lib::group_filter_ensures;

/// `a` comes strictly before `b` in lexicographic order of characters
/// (a proper prefix comes first).
pub open spec fn text_lt(a: Seq<char>, b: Seq<char>) -> bool
    decreases a.len(),
{
    if a.len() == 0 {
        b.len() > 0
    } else if b.len() == 0 {
        false
    } else if a[0] != b[0] {
        a[0] < b[0]
    } else {
        text_lt(a.drop_first(), b.drop_first())
    }
}

/// No text comes before itself.
pub proof fn lemma_text_lt_irreflexive(a: Seq<char>)
    ensures
        !text_lt(a, a),
    decreases a.len(),
{
    if a.len() > 0 {
        lemma_text_lt_irreflexive(a.drop_first());
    }
}

/// Of two different texts, one comes before the other.
pub proof fn lemma_text_lt_total(a: Seq<char>, b: Seq<char>)
    ensures
        text_lt(a, b) || text_lt(b, a) || a == b,
    decreases a.len(),
{
    if a.len() > 0 && b.len() > 0 && a[0] == b[0] {
        lemma_text_lt_total(a.drop_first(), b.drop_first());
        if a.drop_first() == b.drop_first() {
            assert(a =~= seq![a[0]] + a.drop_first());
            assert(b =~= seq![b[0]] + b.drop_first());
        }
    } else if a.len() == 0 && b.len() == 0 {
        assert(a =~= b);
    }
}

/// The order is transitive.
pub proof fn lemma_text_lt_transitive(a: Seq<char>, b: Seq<char>, c: Seq<char>)
    requires
        text_lt(a, b),
        text_lt(b, c),
    ensures
        text_lt(a, c),
    decreases a.len(),
{
    if a.len() > 0 && b.len() > 0 && c.len() > 0 && a[0] == b[0] && b[0] == c[0] {
        lemma_text_lt_transitive(a.drop_first(), b.drop_first(), c.drop_first());
    }
}

/// "Not after" is transitive.
proof fn lemma_text_le_transitive(a: Seq<char>, b: Seq<char>, c: Seq<char>)
    requires
        !text_lt(b, a),
        !text_lt(c, b),
    ensures
        !text_lt(c, a),
{
    lemma_text_lt_total(a, b);
    if text_lt(c, a) {
        if text_lt(a, b) {
            lemma_text_lt_transitive(c, a, b);
        }
    }
}

/// The (name, value) view of an environment entry.
pub open spec fn entry_view(e: (String, String)) -> (Seq<char>, Seq<char>) {
    (e.0@, e.1@)
}

/// The views of a list of environment entries.
pub open spec fn entry_views(s: Seq<(String, String)>) -> Seq<(Seq<char>, Seq<char>)> {
    s.map_values(|e: (String, String)| entry_view(e))
}

/// Entries are in order of name: no entry's name comes before the name of
/// an earlier entry.
pub open spec fn sorted_by_name(s: Seq<(Seq<char>, Seq<char>)>) -> bool {
    forall|i: int, j: int| 0 <= i < j < s.len() ==> !text_lt(#[trigger] s[j].0, #[trigger] s[i].0)
}

/// The entries named `name`, in order.
pub open spec fn named(s: Seq<(Seq<char>, Seq<char>)>, name: Seq<char>) -> Seq<(Seq<char>, Seq<char>)> {
    s.filter(|e: (Seq<char>, Seq<char>)| e.0 == name)
}

/// `r` is the stable sort of `s` by name: sorted, and for every name the
/// entries of that name appear in `r` exactly as, and in the order, they
/// appear in `s`.
pub open spec fn stable_sorted_by_name(
    s: Seq<(Seq<char>, Seq<char>)>,
    r: Seq<(Seq<char>, Seq<char>)>,
) -> bool {
    &&& sorted_by_name(r)
    &&& forall|name: Seq<char>| #[trigger] named(r, name) == named(s, name)
}

/// Whether `a` comes strictly before `b` in lexicographic order.
pub fn str_lt(a: &str, b: &str) -> (r: bool)
    ensures
        r == text_lt(a@, b@),
{
    let x = chars_of(a);
    let y = chars_of(b);
    let mut i: usize = 0;
    assert(x@.skip(0) =~= x@ && y@.skip(0) =~= y@);
    while i < x.len() && i < y.len()
        invariant
            i <= x@.len(),
            i <= y@.len(),
            x@.take(i as int) == y@.take(i as int),
            text_lt(a@, b@) == text_lt(x@.skip(i as int), y@.skip(i as int)),
            x@ == a@,
            y@ == b@,
        decreases x@.len() - i,
    {
        if x[i] != y[i] {
            return x[i] < y[i];
        }
        proof {
            assert(x@.skip(i as int).drop_first() =~= x@.skip(i + 1));
            assert(y@.skip(i as int).drop_first() =~= y@.skip(i + 1));
            assert(x@.take(i + 1) =~= x@.take(i as int).push(x@[i as int]));
            assert(y@.take(i + 1) =~= y@.take(i as int).push(y@[i as int]));
        }
        i = i + 1;
    }
    i == x.len() && i < y.len()
}

/// Sort environment entries by name, keeping entries of equal name in
/// the order they came in.
pub fn sort_environ(env: Vec<(String, String)>) -> (r: Vec<(String, String)>)
    ensures
        stable_sorted_by_name(entry_views(env@), entry_views(r@)),
{
    let mut out: Vec<(String, String)> = Vec::new();
    let mut rest = env;
    let ghost all = entry_views(rest@);
    assert(all.len() == rest.len());
    let mut taken: usize = 0;
    assert(all.take(0) =~= entry_views(out@));
    assert(all.skip(0) =~= all);
    while rest.len() > 0
        invariant
            taken + rest@.len() == all.len(),
            all.len() <= usize::MAX,
            entry_views(rest@) == all.skip(taken as int),
            stable_sorted_by_name(all.take(taken as int), entry_views(out@)),
        decreases rest@.len(),
    {
        let ghost old_rest = rest@;
        let e = rest.remove(0);
        let ghost ev = entry_view(e);
        proof {
            assert(entry_views(old_rest)[0] == ev);
            assert(all.skip(taken as int)[0] == all[taken as int]);
            assert(rest@ =~= old_rest.skip(1));
            assert forall|k: int| 0 <= k < rest@.len() implies #[trigger] entry_views(rest@)[k]
                == all.skip(taken + 1)[k] by {
                assert(entry_views(old_rest)[k + 1] == all.skip(taken as int)[k + 1]);
            }
            assert(entry_views(rest@) =~= all.skip(taken + 1));
        }
        let mut j = out.len();
        while j > 0 && str_lt(e.0.as_str(), out[j - 1].0.as_str())
            invariant
                j <= out@.len(),
                ev == entry_view(e),
                forall|k: int| j <= k < out@.len() ==> text_lt(ev.0, #[trigger] entry_views(out@)[k].0),
            decreases j,
        {
            j = j - 1;
        }
        let ghost before = entry_views(out@);
        proof {
            lemma_insert_keeps_sorted(all.take(taken as int), before, ev, j as int);
            assert(all.take(taken + 1) =~= all.take(taken as int).push(ev));
        }
        out.insert(j, e);
        assert(entry_views(out@) =~= before.take(j as int).push(ev) + before.skip(j as int));
        taken = taken + 1;
    }
    proof {
        assert(all.take(taken as int) =~= all);
    }
    out
}

/// Inserting `x` where everything before is not after it and everything
/// from there on is strictly after it keeps a stable sort stable.
proof fn lemma_insert_keeps_sorted(
    s: Seq<(Seq<char>, Seq<char>)>,
    r: Seq<(Seq<char>, Seq<char>)>,
    x: (Seq<char>, Seq<char>),
    j: int,
)
    requires
        stable_sorted_by_name(s, r),
        0 <= j <= r.len(),
        j > 0 ==> !text_lt(x.0, r[j - 1].0),
        forall|k: int| j <= k < r.len() ==> text_lt(x.0, #[trigger] r[k].0),
    ensures
        stable_sorted_by_name(s.push(x), r.take(j).push(x) + r.skip(j)),
{
    let r2 = r.take(j).push(x) + r.skip(j);
    assert forall|a: int, b: int| 0 <= a < b < r2.len() implies !text_lt(#[trigger] r2[b].0, #[trigger] r2[a].0) by {
        if a < j && b < j {
            assert(r2[a] == r[a] && r2[b] == r[b]);
        } else if a < j && b == j {
            if a < j - 1 {
                lemma_text_le_transitive(r[a].0, r[j - 1].0, x.0);
            }
        } else if a < j && b > j {
            assert(r2[b] == r[b - 1]);
            assert(!text_lt(r[b - 1].0, r[a].0));
        } else if a == j {
            assert(r2[b] == r[b - 1]);
            assert(text_lt(x.0, r[b - 1].0));
            if text_lt(r[b - 1].0, x.0) {
                lemma_text_lt_transitive(x.0, r[b - 1].0, x.0);
                lemma_text_lt_irreflexive(x.0);
            }
        } else {
            assert(r2[a] == r[a - 1] && r2[b] == r[b - 1]);
        }
    }
    assert forall|name: Seq<char>| #[trigger] named(r2, name) == named(s.push(x), name) by {
        let p = |e: (Seq<char>, Seq<char>)| e.0 == name;
        assert(r2 =~= r.take(j) + (seq![x] + r.skip(j)));
        assert(r =~= r.take(j) + r.skip(j));
        assert(s.push(x) =~= s + seq![x]);
        Seq::filter_distributes_over_add(r.take(j), seq![x] + r.skip(j), p);
        Seq::filter_distributes_over_add(seq![x], r.skip(j), p);
        Seq::filter_distributes_over_add(r.take(j), r.skip(j), p);
        Seq::filter_distributes_over_add(s, seq![x], p);
        assert(named(r, name) == named(s, name));
        if x.0 == name {
            assert forall|k: int| 0 <= k < r.skip(j).len() implies !p(#[trigger] r.skip(j)[k]) by {
                assert(r.skip(j)[k] == r[j + k]);
                assert(text_lt(x.0, r[j + k].0));
                if r[j + k].0 == name {
                    lemma_text_lt_irreflexive(name);
                }
            }
            r.skip(j).lemma_all_neg_filter_empty(p);
        }
        reveal_with_fuel(Seq::filter, 2);
    }
}

/// The environment shown in the detail panel: none for threads (they
/// share their process's), the process's own sorted by name otherwise.
pub fn detail_environ(is_thread: bool, raw: Vec<(String, String)>) -> (r: Vec<(String, String)>)
    ensures
        is_thread ==> r@.len() == 0,
        !is_thread ==> stable_sorted_by_name(entry_views(raw@), entry_views(r@)),
{
    if is_thread {
        Vec::new()
    } else {
        sort_environ(raw)
    }
}

/// The length of `s` in UTF-8 bytes.
pub open spec fn byte_len(s: Seq<char>) -> nat {
    encode_utf8(s).len()
}

/// Values longer than this many bytes are cut short in the strip.
pub const STRIP_VALUE_MAX: usize = 30;

/// Bytes taken by the strip's leading ` env: ` label.
pub const STRIP_LABEL_BYTES: usize = 6;

/// Bytes taken by the gap between two entries.
pub const STRIP_GAP_BYTES: usize = 2;

/// Bytes taken by the `…` that marks a cut value.
pub const ELLIPSIS_BYTES: usize = 3;

/// The variables shown first, in this order, when present.
pub open spec fn preferred_names() -> Seq<Seq<char>> {
    seq!["SHELL"@, "HOME"@, "USER"@, "LANG"@, "PATH"@, "TERM"@]
}

/// The first entry named `name`, if any.
pub open spec fn first_named(env: Seq<(Seq<char>, Seq<char>)>, name: Seq<char>) -> Option<(Seq<char>, Seq<char>)>
    decreases env.len(),
{
    if env.len() == 0 {
        None
    } else if env[0].0 == name {
        Some(env[0])
    } else {
        first_named(env.drop_first(), name)
    }
}

/// The preferred entries present in `env`, in the order of `names`.
pub open spec fn preferred_entries(env: Seq<(Seq<char>, Seq<char>)>, names: Seq<Seq<char>>) -> Seq<(Seq<char>, Seq<char>)>
    decreases names.len(),
{
    if names.len() == 0 {
        Seq::empty()
    } else {
        let before = preferred_entries(env, names.drop_last());
        match first_named(env, names.last()) {
            Some(e) => before.push(e),
            None => before,
        }
    }
}

/// An empty environment has no preferred entries.
proof fn lemma_no_preferred_entries(names: Seq<Seq<char>>)
    ensures
        preferred_entries(Seq::empty(), names).len() == 0,
    decreases names.len(),
{
    if names.len() > 0 {
        lemma_no_preferred_entries(names.drop_last());
    }
}

/// `acc` followed by the entries of `env` that are not yet in it, in order.
pub open spec fn append_new(acc: Seq<(Seq<char>, Seq<char>)>, env: Seq<(Seq<char>, Seq<char>)>) -> Seq<(Seq<char>, Seq<char>)>
    decreases env.len(),
{
    if env.len() == 0 {
        acc
    } else {
        let so_far = append_new(acc, env.drop_last());
        if so_far.contains(env.last()) {
            so_far
        } else {
            so_far.push(env.last())
        }
    }
}

/// The order the strip considers entries in: the preferred variables
/// first, then every other entry once, in the order it came in.
pub open spec fn strip_order(env: Seq<(Seq<char>, Seq<char>)>) -> Seq<(Seq<char>, Seq<char>)> {
    append_new(preferred_entries(env, preferred_names()), env)
}

/// The bytes a value takes in the strip: cut values take the kept prefix
/// and the ellipsis.
pub open spec fn shown_value_bytes(v: Seq<char>) -> nat {
    if byte_len(v) > STRIP_VALUE_MAX {
        (STRIP_VALUE_MAX + ELLIPSIS_BYTES) as nat
    } else {
        byte_len(v)
    }
}

/// The bytes entry `e` adds to the strip: a gap unless it is the first,
/// then `name=value`.
pub open spec fn entry_bytes(e: (Seq<char>, Seq<char>), first: bool) -> nat {
    (if first { 0 } else { STRIP_GAP_BYTES as nat }) + byte_len(e.0) + 1 + shown_value_bytes(e.1)
}

/// How many of `entries` fit, in order, into `width` bytes when `used`
/// bytes are already taken.
pub open spec fn fitting(entries: Seq<(Seq<char>, Seq<char>)>, used: nat, width: nat, first: bool) -> nat
    decreases entries.len(),
{
    if entries.len() == 0 {
        0
    } else {
        let needed = entry_bytes(entries[0], first);
        if used + needed > width {
            0
        } else {
            1 + fitting(entries.drop_first(), used + needed, width, false)
        }
    }
}

/// One entry of the environment strip.
pub struct StripEntry {
    pub name: String,
    /// The value, or its first `STRIP_VALUE_MAX` bytes when `cut` is set.
    pub value: String,
    /// Whether the value was cut short (and is shown with an ellipsis).
    pub cut: bool,
}

/// How many entries the strip shows for `env` in an area `width` wide.
pub open spec fn strip_len(env: Seq<(Seq<char>, Seq<char>)>, width: nat) -> nat {
    if width < 10 || env.len() == 0 {
        0
    } else {
        fitting(strip_order(env), STRIP_LABEL_BYTES as nat, width, true)
    }
}

/// Entry `e` as the strip shows it.
pub open spec fn strip_entry_ok(s: StripEntry, e: (Seq<char>, Seq<char>)) -> bool {
    &&& s.name@ == e.0
    &&& s.cut == (byte_len(e.1) > STRIP_VALUE_MAX)
    &&& s.cut ==> encode_utf8(s.value@) == encode_utf8(e.1).subrange(0, STRIP_VALUE_MAX as int)
    &&& !s.cut ==> s.value@ == e.1
}

/// The values the strip would cut can be cut on a character boundary: the
/// strip looks at entries up to and including the first that does not fit,
/// and at none when the area is narrower than 10.
pub open spec fn strip_cuttable(env: Seq<(Seq<char>, Seq<char>)>, width: nat) -> bool {
    width >= 10 ==> forall|i: int|
        0 <= i <= strip_len(env, width) && i < strip_order(env).len() && byte_len(
            #[trigger] strip_order(env)[i].1,
        ) > STRIP_VALUE_MAX ==> is_char_boundary(
            encode_utf8(strip_order(env)[i].1),
            STRIP_VALUE_MAX as int,
        )
}

/// Whether two texts are equal.
pub fn str_eq(a: &str, b: &str) -> (r: bool)
    ensures
        r == (a@ == b@),
{
    proof {
        lemma_text_lt_total(a@, b@);
        lemma_text_lt_irreflexive(a@);
    }
    !str_lt(a, b) && !str_lt(b, a)
}

fn clone_entry(e: &(String, String)) -> (r: (String, String))
    ensures
        entry_view(r) == entry_view(*e),
{
    (e.0.clone(), e.1.clone())
}

/// The first entry of `env` named `name`.
fn find_named(env: &Vec<(String, String)>, name: &str) -> (r: Option<(String, String)>)
    ensures
        match first_named(entry_views(env@), name@) {
            Some(e) => r matches Some(x) && entry_view(x) == e,
            None => r is None,
        },
{
    let ghost ev = entry_views(env@);
    let mut i: usize = 0;
    assert(ev.skip(0) =~= ev);
    while i < env.len()
        invariant
            i <= env@.len(),
            ev == entry_views(env@),
            first_named(ev, name@) == first_named(ev.skip(i as int), name@),
        decreases env@.len() - i,
    {
        proof {
            assert(ev.skip(i as int).drop_first() =~= ev.skip(i + 1));
            assert(ev.skip(i as int)[0] == entry_view(env@[i as int]));
        }
        if str_eq(env[i].0.as_str(), name) {
            return Some(clone_entry(&env[i]));
        }
        i = i + 1;
    }
    None
}

/// Whether `list` holds an entry equal to `e`.
fn holds_entry(list: &Vec<(String, String)>, e: &(String, String)) -> (r: bool)
    ensures
        r == entry_views(list@).contains(entry_view(*e)),
{
    let ghost lv = entry_views(list@);
    let mut i: usize = 0;
    while i < list.len()
        invariant
            i <= list@.len(),
            lv == entry_views(list@),
            forall|k: int| 0 <= k < i ==> lv[k] != entry_view(*e),
        decreases list@.len() - i,
    {
        assert(lv[i as int] == entry_view(list@[i as int]));
        if str_eq(list[i].0.as_str(), e.0.as_str()) && str_eq(list[i].1.as_str(), e.1.as_str()) {
            return true;
        }
        i = i + 1;
    }
    false
}

/// The entries in strip order (see `strip_order`).
fn order_for_strip(env: &Vec<(String, String)>) -> (r: Vec<(String, String)>)
    ensures
        entry_views(r@) == strip_order(entry_views(env@)),
{
    let ghost ev = entry_views(env@);
    let names: [&str; 6] = ["SHELL", "HOME", "USER", "LANG", "PATH", "TERM"];
    let mut ordered: Vec<(String, String)> = Vec::new();
    let mut n: usize = 0;
    while n < 6
        invariant
            n <= 6,
            names@ == seq!["SHELL", "HOME", "USER", "LANG", "PATH", "TERM"],
            ev == entry_views(env@),
            entry_views(ordered@) == preferred_entries(ev, preferred_names().take(n as int)),
        decreases 6 - n,
    {
        proof {
            assert(preferred_names().take(n + 1).drop_last() =~= preferred_names().take(n as int));
            assert(names@[n as int]@ == preferred_names()[n as int]);
        }
        let ghost before = entry_views(ordered@);
        match find_named(env, names[n]) {
            Some(e) => {
                ordered.push(e);
                assert(entry_views(ordered@) =~= before.push(entry_view(e)));
            },
            None => {},
        }
        n = n + 1;
    }
    proof {
        assert(preferred_names().take(6) =~= preferred_names());
    }
    let ghost pref = entry_views(ordered@);
    let mut i: usize = 0;
    while i < env.len()
        invariant
            i <= env@.len(),
            ev == entry_views(env@),
            pref == preferred_entries(ev, preferred_names()),
            entry_views(ordered@) == append_new(pref, ev.take(i as int)),
        decreases env@.len() - i,
    {
        proof {
            assert(ev.take(i + 1).drop_last() =~= ev.take(i as int));
            assert(ev.take(i + 1).last() == entry_view(env@[i as int]));
        }
        let ghost before = entry_views(ordered@);
        if !holds_entry(&ordered, &env[i]) {
            ordered.push(clone_entry(&env[i]));
            assert(entry_views(ordered@) =~= before.push(entry_view(env@[i as int])));
        }
        i = i + 1;
    }
    proof {
        assert(ev.take(env@.len() as int) =~= ev);
    }
    ordered
}

/// The entries of the condensed `KEY=value` strip that fit in an area
/// `width` cells wide, in display order: the well-known variables first,
/// then the rest, each once; values longer than `STRIP_VALUE_MAX` bytes cut
/// short; nothing when the area is narrower than 10 or there is nothing
/// to show.
pub fn environ_strip(environ: &Vec<(String, String)>, width: u16) -> (r: Vec<StripEntry>)
    requires
        strip_cuttable(entry_views(environ@), width as nat),
    ensures
        r@.len() == strip_len(entry_views(environ@), width as nat),
        forall|i: int| 0 <= i < r@.len() ==> strip_entry_ok(#[trigger] r@[i], strip_order(entry_views(environ@))[i]),
{
    match checked_environ_strip(environ, width) {
        Some(r) => r,
        None => Vec::new(),
    }
}

/// The strip of `environ_strip`, or `None` when one of the values it
/// would cut cannot be cut on a character boundary.
pub fn checked_environ_strip(environ: &Vec<(String, String)>, width: u16) -> (r: Option<Vec<StripEntry>>)
    ensures
        r is None <==> !strip_cuttable(entry_views(environ@), width as nat),
        r matches Some(v) ==> {
            &&& v@.len() == strip_len(entry_views(environ@), width as nat)
            &&& forall|i: int| 0 <= i < v@.len() ==> strip_entry_ok(#[trigger] v@[i], strip_order(entry_views(environ@))[i])
        },
{
    let mut out: Vec<StripEntry> = Vec::new();
    if width < 10 || environ.len() == 0 {
        proof {
            if width >= 10 {
                assert(entry_views(environ@) =~= Seq::empty());
                lemma_no_preferred_entries(preferred_names());
            }
        }
        return Some(out);
    }
    let ordered = order_for_strip(environ);
    let ghost ov = entry_views(ordered@);
    let ghost total = fitting(ov, STRIP_LABEL_BYTES as nat, width as nat, true);
    let mut used: u128 = STRIP_LABEL_BYTES as u128;
    assert(ov.skip(0) =~= ov);
    let mut i: usize = 0;
    while i < ordered.len()
        invariant_except_break
            i <= ordered@.len(),
            ov == entry_views(ordered@),
            ov == strip_order(entry_views(environ@)),
            total == strip_len(entry_views(environ@), width as nat),
            width >= 10,
            out@.len() == i,
            i <= total,
            used <= width,
            total == i + fitting(ov.skip(i as int), used as nat, width as nat, i == 0),
            forall|k: int| 0 <= k < i ==> strip_entry_ok(#[trigger] out@[k], ov[k]),
            forall|k: int|
                0 <= k < i && byte_len(#[trigger] ov[k].1) > STRIP_VALUE_MAX ==> is_char_boundary(
                    encode_utf8(ov[k].1),
                    STRIP_VALUE_MAX as int,
                ),
        ensures
            out@.len() == total,
            forall|k: int| 0 <= k < out@.len() ==> strip_entry_ok(#[trigger] out@[k], ov[k]),
            forall|k: int|
                0 <= k <= total && k < ov.len() && byte_len(#[trigger] ov[k].1) > STRIP_VALUE_MAX
                    ==> is_char_boundary(encode_utf8(ov[k].1), STRIP_VALUE_MAX as int),
        decreases ordered@.len() - i,
    {
        let name = &ordered[i].0;
        let value = &ordered[i].1;
        let ghost e = ov[i as int];
        proof {
            assert(e == entry_view(ordered@[i as int]));
            assert(ov.skip(i as int)[0] == e);
            assert(ov.skip(i as int).drop_first() =~= ov.skip(i + 1));
        }
        let cut = value.as_str().as_bytes().len() > STRIP_VALUE_MAX;
        let shown: u128 = if cut {
            (STRIP_VALUE_MAX + ELLIPSIS_BYTES) as u128
        } else {
            value.as_str().as_bytes().len() as u128
        };
        let gap: u128 = if i == 0 { 0 } else { STRIP_GAP_BYTES as u128 };
        let needed: u128 = gap + name.as_str().as_bytes().len() as u128 + 1 + shown;
        assert(needed == entry_bytes(e, i == 0));
        if cut && !value.as_str().is_char_boundary(STRIP_VALUE_MAX) {
            proof {
                assert(!strip_cuttable(entry_views(environ@), width as nat)) by {
                    assert(0 <= i <= strip_len(entry_views(environ@), width as nat));
                    assert(strip_order(entry_views(environ@))[i as int] == e);
                }
            }
            return None;
        }
        let shown_value = if cut {
            let (head, _) = value.as_str().split_at(STRIP_VALUE_MAX);
            head.to_owned()
        } else {
            value.clone()
        };
        if used + needed > width as u128 {
            break;
        }
        out.push(StripEntry { name: name.clone(), value: shown_value, cut });
        used = used + needed;
        i = i + 1;
    }
    Some(out)
}

} // verus!
