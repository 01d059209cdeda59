//! Theme catalogue: the built-in theme names, discovery of user and plugin
//! theme files, and which source a theme name resolves to.
use vstd::prelude::*;
use crate::paths::{join, join_path};
use crate::text::{chars_of, contains_name, has_suffix, names_of, owned, push_all, seq_eq, slice_chars, string_from, ends_with_chars};

verus! {

/// One built-in theme.
pub struct BuiltinTheme {
    pub name: String,
}

/// The built-in theme names, in declared order.
pub open spec fn builtin_names() -> Seq<Seq<char>> {
    seq![
        "boa"@,
        "zinc"@,
        "empire"@,
        "phosphor"@,
        "tokyo-night-storm"@,
        "catppuccin-latte"@,
        "dracula"@,
        "rose-pine"@,
        "deep-ocean"@,
    ]
}

/// The theme every unknown name falls back to.
pub open spec fn fallback_theme() -> Seq<char> {
    "zinc"@
}

/// Built-in theme names, in declared order.
pub fn builtin_theme_names() -> (r: Vec<String>)
    ensures
        names_of(r@) == builtin_names(),
{
    let mut r: Vec<String> = Vec::new();
    r.push(owned("boa"));
    r.push(owned("zinc"));
    r.push(owned("empire"));
    r.push(owned("phosphor"));
    r.push(owned("tokyo-night-storm"));
    r.push(owned("catppuccin-latte"));
    r.push(owned("dracula"));
    r.push(owned("rose-pine"));
    r.push(owned("deep-ocean"));
    assert(names_of(r@) =~= builtin_names());
    r
}

/// The built-in themes, in declared order.
pub fn builtin_themes() -> (r: Vec<BuiltinTheme>)
    ensures
        r@.len() == builtin_names().len(),
        forall|i: int| 0 <= i < r@.len() ==> #[trigger] r@[i].name@ == builtin_names()[i],
{
    let names = builtin_theme_names();
    let mut r: Vec<BuiltinTheme> = Vec::new();
    let mut i: usize = 0;
    while i < names.len()
        invariant
            i <= names@.len(),
            names_of(names@) == builtin_names(),
            r@.len() == i,
            forall|k: int| 0 <= k < i ==> #[trigger] r@[k].name@ == builtin_names()[k],
        decreases names@.len() - i,
    {
        assert(names@[i as int]@ == builtin_names()[i as int]);
        r.push(BuiltinTheme { name: owned(names[i].as_str()) });
        i = i + 1;
    }
    r
}

/// Whether `name` refers to a built-in theme.
pub fn is_builtin_theme(name: &str) -> (r: bool)
    ensures
        r == builtin_names().contains(name@),
{
    let names = builtin_theme_names();
    let n = chars_of(name);
    contains_name(names.as_slice(), &n)
}

/// The directory that holds custom theme files: `themes` under the
/// application directory, when that directory is known.
pub fn custom_themes_dir(app_dir: Option<&str>) -> (r: Option<String>)
    ensures
        match app_dir {
            None => r is None,
            Some(d) => r matches Some(p) && p@ == join_path(d@, "themes"@),
        },
{
    match app_dir {
        None => None,
        Some(d) => Some(join(d, "themes")),
    }
}

// ---------------------------------------------------------------------------
// Custom theme discovery
// ---------------------------------------------------------------------------
/// A discovered theme file as a pair of views: its theme name and its path.
pub open spec fn entry_views(v: Seq<(String, String)>) -> Seq<(Seq<char>, Seq<char>)> {
    Seq::new(v.len(), |i: int| (v[i].0@, v[i].1@))
}

/// The theme name a directory entry stands for: the stem of a file whose
/// extension is `toml` (`Path::file_stem` and `Path::extension`: the
/// extension follows the last dot, and a leading dot alone starts no
/// extension).
pub open spec fn toml_stem(file_name: Seq<char>) -> Option<Seq<char>> {
    if file_name.len() > 5 && has_suffix(file_name, ".toml"@) {
        Some(file_name.take(file_name.len() - 5))
    } else {
        None
    }
}

/// The `(name, path)` pairs that the entries `(file name, path)` of the
/// themes directory contribute, in directory order: TOML files whose stem is
/// not a built-in theme name.
pub open spec fn custom_candidates(entries: Seq<(Seq<char>, Seq<char>)>) -> Seq<(Seq<char>, Seq<char>)>
    decreases entries.len(),
{
    if entries.len() == 0 {
        seq![]
    } else {
        let rest = custom_candidates(entries.drop_last());
        match toml_stem(entries.last().0) {
            Some(stem) => if builtin_names().contains(stem) {
                rest
            } else {
                rest.push((stem, entries.last().1))
            },
            None => rest,
        }
    }
}

/// Lexicographic order of names by code point, the order of `str::cmp`.
pub open spec fn name_le(a: Seq<char>, b: Seq<char>) -> bool
    decreases a.len(),
{
    if a.len() == 0 {
        true
    } else if b.len() == 0 {
        false
    } else if (a[0] as u32) == (b[0] as u32) {
        name_le(a.drop_first(), b.drop_first())
    } else {
        (a[0] as u32) < (b[0] as u32)
    }
}

/// Entries ordered by name.
pub open spec fn sorted_by_name(s: Seq<(Seq<char>, Seq<char>)>) -> bool {
    forall|i: int, j: int| 0 <= i < j < s.len() ==> name_le(#[trigger] s[i].0, #[trigger] s[j].0)
}

/// Any two names are ordered one way or the other.
pub proof fn lemma_name_le_total(a: Seq<char>, b: Seq<char>)
    ensures
        name_le(a, b) || name_le(b, a),
    decreases a.len(),
{
    if a.len() > 0 && b.len() > 0 && (a[0] as u32) == (b[0] as u32) {
        lemma_name_le_total(a.drop_first(), b.drop_first());
    }
}

/// The name order is transitive.
pub proof fn lemma_name_le_trans(a: Seq<char>, b: Seq<char>, c: Seq<char>)
    requires
        name_le(a, b),
        name_le(b, c),
    ensures
        name_le(a, c),
    decreases a.len(),
{
    if a.len() > 0 && b.len() > 0 && c.len() > 0 && (a[0] as u32) == (b[0] as u32) && (b[0] as u32) == (c[0] as u32) {
        lemma_name_le_trans(a.drop_first(), b.drop_first(), c.drop_first());
    }
}

proof fn lemma_same_code_same_char(x: char, y: char)
    requires
        x as u32 == y as u32,
    ensures
        x == y,
{
}

/// Two names ordered both ways are the same name.
pub proof fn lemma_name_le_antisymmetric(a: Seq<char>, b: Seq<char>)
    requires
        name_le(a, b),
        name_le(b, a),
    ensures
        a == b,
    decreases a.len(),
{
    if a.len() > 0 && b.len() > 0 {
        lemma_name_le_antisymmetric(a.drop_first(), b.drop_first());
        lemma_same_code_same_char(a[0], b[0]);
        assert(a =~= seq![a[0]] + a.drop_first());
        assert(b =~= seq![b[0]] + b.drop_first());
    }
}

fn name_le_exec(a: &Vec<char>, b: &Vec<char>) -> (r: bool)
    ensures
        r == name_le(a@, b@),
{
    let mut i: usize = 0;
    assert(a@.skip(0) =~= a@);
    assert(b@.skip(0) =~= b@);
    while i < a.len() && i < b.len() && (a[i] as u32) == (b[i] as u32)
        invariant
            i <= a@.len(),
            i <= b@.len(),
            name_le(a@, b@) == name_le(a@.skip(i as int), b@.skip(i as int)),
        decreases a@.len() - i,
    {
        assert(a@.skip(i as int).drop_first() =~= a@.skip(i + 1));
        assert(b@.skip(i as int).drop_first() =~= b@.skip(i + 1));
        i = i + 1;
    }
    if i == a.len() {
        true
    } else if i == b.len() {
        false
    } else {
        (a[i] as u32) < (b[i] as u32)
    }
}

/// Keep the theme files among the entries `(file name, path)` of the themes
/// directory, named by their stem, skipping built-in names.
fn custom_theme_entries(entries: &Vec<(String, String)>) -> (r: Vec<(String, String)>)
    ensures
        entry_views(r@) == custom_candidates(entry_views(entries@)),
{
    let ghost ev = entry_views(entries@);
    let mut r: Vec<(String, String)> = Vec::new();
    let mut i: usize = 0;
    while i < entries.len()
        invariant
            i <= entries@.len(),
            ev == entry_views(entries@),
            entry_views(r@) == custom_candidates(ev.take(i as int)),
        decreases entries@.len() - i,
    {
        assert(ev.take(i + 1).drop_last() =~= ev.take(i as int));
        let f = chars_of(entries[i].0.as_str());
        let ext = chars_of(".toml");
        if f.len() > 5 && ends_with_chars(&f, &ext) {
            let stem = slice_chars(&f, 0, f.len() - 5);
            let stem_s = string_from(&stem);
            if !is_builtin_theme(stem_s.as_str()) {
                let path = owned(entries[i].1.as_str());
                let ghost before = r@;
                r.push((stem_s, path));
                assert(entry_views(r@) =~= entry_views(before).push((stem@, entries@[i as int].1@)));
            }
        }
        i = i + 1;
    }
    assert(ev.take(entries@.len() as int) =~= ev);
    r
}

/// Order theme entries by name (stable insertion sort).
fn sort_by_name(v: Vec<(String, String)>) -> (r: Vec<(String, String)>)
    ensures
        sorted_by_name(entry_views(r@)),
        entry_views(r@).to_multiset() == entry_views(v@).to_multiset(),
{
    let ghost vv = entry_views(v@);
    let mut out: Vec<(String, String)> = Vec::new();
    let mut j: usize = 0;
    assert(entry_views(out@) =~= Seq::<(Seq<char>, Seq<char>)>::empty());
    assert(vv.take(0) =~= Seq::<(Seq<char>, Seq<char>)>::empty());
    while j < v.len()
        invariant
            j <= v@.len(),
            vv == entry_views(v@),
            sorted_by_name(entry_views(out@)),
            entry_views(out@).to_multiset() == vv.take(j as int).to_multiset(),
        decreases v@.len() - j,
    {
        let x_name = chars_of(v[j].0.as_str());
        assert(vv[j as int].0 == v@[j as int].0@);
        let ghost ov = entry_views(out@);
        let mut k: usize = 0;
        let mut found = false;
        while k < out.len() && !found
            invariant
                k <= out@.len(),
                ov == entry_views(out@),
                x_name@ == vv[j as int].0,
                forall|m: int| 0 <= m < k ==> name_le(#[trigger] ov[m].0, x_name@),
                found ==> k < out@.len() && !name_le(ov[k as int].0, x_name@),
            decreases out@.len() - k, if found { 0int } else { 1int },
        {
            let o_name = chars_of(out[k].0.as_str());
            if name_le_exec(&o_name, &x_name) {
                k = k + 1;
            } else {
                found = true;
            }
        }
        let item = (owned(v[j].0.as_str()), owned(v[j].1.as_str()));
        let ghost xv = (item.0@, item.1@);
        assert(xv == vv[j as int]);
        out.insert(k, item);
        let ghost nv = entry_views(out@);
        assert(nv =~= ov.insert(k as int, xv));
        proof {
            if found {
                lemma_name_le_total(ov[k as int].0, x_name@);
            }
            assert forall|a: int, b: int| 0 <= a < b < nv.len() implies name_le(
                #[trigger] nv[a].0,
                #[trigger] nv[b].0,
            ) by {
                if a < k && b == k {
                } else if a == k && b > k {
                    if b - 1 > k {
                        lemma_name_le_trans(x_name@, ov[k as int].0, ov[b - 1].0);
                    }
                } else if a < k && b > k {
                } else {
                }
            }
            vstd::seq_lib::to_multiset_insert(ov, k as int, xv);
            vstd::seq_lib::to_multiset_build(vv.take(j as int), xv);
            assert(vv.take(j + 1) =~= vv.take(j as int).push(xv));
        }
        j = j + 1;
    }
    assert(vv.take(v@.len() as int) =~= vv);
    out
}

/// Names in order.
pub open spec fn names_sorted(s: Seq<Seq<char>>) -> bool {
    forall|i: int, j: int| 0 <= i < j < s.len() ==> name_le(#[trigger] s[i], #[trigger] s[j])
}

/// Order names by code point (insertion sort).
pub fn sort_names(v: Vec<String>) -> (r: Vec<String>)
    ensures
        names_sorted(names_of(r@)),
        names_of(r@).to_multiset() == names_of(v@).to_multiset(),
{
    let ghost vv = names_of(v@);
    let mut out: Vec<String> = Vec::new();
    let mut j: usize = 0;
    assert(names_of(out@) =~= Seq::<Seq<char>>::empty());
    assert(vv.take(0) =~= Seq::<Seq<char>>::empty());
    while j < v.len()
        invariant
            j <= v@.len(),
            vv == names_of(v@),
            names_sorted(names_of(out@)),
            names_of(out@).to_multiset() == vv.take(j as int).to_multiset(),
        decreases v@.len() - j,
    {
        let x_name = chars_of(v[j].as_str());
        let ghost ov = names_of(out@);
        let mut k: usize = 0;
        let mut found = false;
        while k < out.len() && !found
            invariant
                k <= out@.len(),
                ov == names_of(out@),
                x_name@ == vv[j as int],
                forall|m: int| 0 <= m < k ==> name_le(#[trigger] ov[m], x_name@),
                found ==> k < out@.len() && !name_le(ov[k as int], x_name@),
            decreases out@.len() - k, if found { 0int } else { 1int },
        {
            let o_name = chars_of(out[k].as_str());
            if name_le_exec(&o_name, &x_name) {
                k = k + 1;
            } else {
                found = true;
            }
        }
        let item = owned(v[j].as_str());
        let ghost xv = item@;
        out.insert(k, item);
        let ghost nv = names_of(out@);
        assert(nv =~= ov.insert(k as int, xv));
        proof {
            if found {
                lemma_name_le_total(ov[k as int], x_name@);
            }
            assert forall|a: int, b: int| 0 <= a < b < nv.len() implies name_le(#[trigger] nv[a], #[trigger] nv[b]) by {
                if a == k && b > k {
                    if b - 1 > k {
                        lemma_name_le_trans(x_name@, ov[k as int], ov[b - 1]);
                    }
                }
            }
            vstd::seq_lib::to_multiset_insert(ov, k as int, xv);
            vstd::seq_lib::to_multiset_build(vv.take(j as int), xv);
            assert(vv.take(j + 1) =~= vv.take(j as int).push(xv));
        }
        j = j + 1;
    }
    assert(vv.take(v@.len() as int) =~= vv);
    out
}

/// The custom themes among the entries `(file name, path)` of the themes
/// directory: TOML files not named like a built-in theme, as
/// `(name, path)` pairs ordered by name.
pub fn select_custom_themes(entries: &Vec<(String, String)>) -> (r: Vec<(String, String)>)
    ensures
        sorted_by_name(entry_views(r@)),
        entry_views(r@).to_multiset() == custom_candidates(entry_views(entries@)).to_multiset(),
{
    let c = custom_theme_entries(entries);
    sort_by_name(c)
}

// ---------------------------------------------------------------------------
// Plugin themes and the full catalogue
// ---------------------------------------------------------------------------
/// Whether the plugin theme at `i` is offered: its name is neither a
/// built-in theme, nor a custom theme, nor the name of an earlier plugin
/// theme (the first plugin to claim a name wins).
pub open spec fn plugin_theme_kept(
    custom: Seq<(Seq<char>, Seq<char>)>,
    plugin: Seq<(Seq<char>, Seq<char>)>,
    i: int,
) -> bool {
    &&& !builtin_names().contains(plugin[i].0)
    &&& !(exists|c: int| 0 <= c < custom.len() && #[trigger] custom[c].0 == plugin[i].0)
    &&& !(exists|j: int| 0 <= j < i && #[trigger] plugin[j].0 == plugin[i].0)
}

/// The plugin themes that are offered, in plugin order.
pub open spec fn plugin_selection(
    custom: Seq<(Seq<char>, Seq<char>)>,
    plugin: Seq<(Seq<char>, Seq<char>)>,
) -> Seq<(Seq<char>, Seq<char>)>
    decreases plugin.len(),
{
    if plugin.len() == 0 {
        seq![]
    } else {
        let rest = plugin_selection(custom, plugin.drop_last());
        if plugin_theme_kept(custom, plugin, plugin.len() - 1) {
            rest.push(plugin.last())
        } else {
            rest
        }
    }
}

proof fn lemma_kept_prefix(
    custom: Seq<(Seq<char>, Seq<char>)>,
    plugin: Seq<(Seq<char>, Seq<char>)>,
    n: int,
)
    requires
        0 <= n < plugin.len(),
    ensures
        plugin_theme_kept(custom, plugin.take(n + 1), n) == plugin_theme_kept(custom, plugin, n),
{
    let p = plugin.take(n + 1);
    assert(p[n] == plugin[n]);
    if exists|j: int| 0 <= j < n && #[trigger] plugin[j].0 == plugin[n].0 {
        let j = choose|j: int| 0 <= j < n && #[trigger] plugin[j].0 == plugin[n].0;
        assert(p[j] == plugin[j]);
    }
    if exists|j: int| 0 <= j < n && #[trigger] p[j].0 == p[n].0 {
        let j = choose|j: int| 0 <= j < n && #[trigger] p[j].0 == p[n].0;
        assert(p[j] == plugin[j]);
    }
}

/// Whether some entry of `v` has the name `name`.
fn has_entry_named(v: &Vec<(String, String)>, upto: usize, name: &Vec<char>) -> (r: bool)
    requires
        upto <= v@.len(),
    ensures
        r == exists|j: int| 0 <= j < upto && #[trigger] entry_views(v@)[j].0 == name@,
{
    let ghost ev = entry_views(v@);
    let mut j: usize = 0;
    while j < upto
        invariant
            j <= upto <= v@.len(),
            ev == entry_views(v@),
            forall|m: int| 0 <= m < j ==> #[trigger] ev[m].0 != name@,
        decreases upto - j,
    {
        let n = chars_of(v[j].0.as_str());
        if seq_eq(&n, name) {
            assert(ev[j as int].0 == name@);
            return true;
        }
        j = j + 1;
    }
    false
}

/// Themes contributed by active plugins, given as `(name, path)` pairs in
/// plugin order: a plugin cannot shadow a built-in theme or a custom theme,
/// and of two plugins offering one name the first wins.
pub fn discover_plugin_themes(
    custom: &Vec<(String, String)>,
    plugin: &Vec<(String, String)>,
) -> (r: Vec<(String, String)>)
    ensures
        entry_views(r@) == plugin_selection(entry_views(custom@), entry_views(plugin@)),
{
    let ghost cv = entry_views(custom@);
    let ghost pv = entry_views(plugin@);
    let mut r: Vec<(String, String)> = Vec::new();
    let mut i: usize = 0;
    while i < plugin.len()
        invariant
            i <= plugin@.len(),
            cv == entry_views(custom@),
            pv == entry_views(plugin@),
            entry_views(r@) == plugin_selection(cv, pv.take(i as int)),
        decreases plugin@.len() - i,
    {
        let ghost p = pv.take(i + 1);
        assert(p.drop_last() =~= pv.take(i as int));
        proof {
            lemma_kept_prefix(cv, pv, i as int);
        }
        let name = chars_of(plugin[i].0.as_str());
        assert(name@ == pv[i as int].0);
        let builtin = is_builtin_theme(plugin[i].0.as_str());
        let in_custom = has_entry_named(custom, custom.len(), &name);
        let earlier = has_entry_named(plugin, i, &name);
        if !builtin && !in_custom && !earlier {
            let ghost before = r@;
            r.push((owned(plugin[i].0.as_str()), owned(plugin[i].1.as_str())));
            assert(entry_views(r@) =~= entry_views(before).push(pv[i as int]));
        }
        i = i + 1;
    }
    assert(pv.take(plugin@.len() as int) =~= pv);
    r
}

/// A plugin theme never shadows another theme: every offered plugin theme
/// comes from the plugins, is named like no built-in and no custom theme, and
/// no two offered plugin themes share a name.
pub proof fn law_plugin_themes_never_shadow(
    custom: Seq<(Seq<char>, Seq<char>)>,
    plugin: Seq<(Seq<char>, Seq<char>)>,
)
    ensures
        forall|i: int| #![trigger plugin_selection(custom, plugin)[i]]
            0 <= i < plugin_selection(custom, plugin).len() ==> {
                let e = plugin_selection(custom, plugin)[i];
                &&& plugin.contains(e)
                &&& !builtin_names().contains(e.0)
                &&& forall|c: int| 0 <= c < custom.len() ==> #[trigger] custom[c].0 != e.0
            },
        forall|i: int, j: int|
            0 <= i < j < plugin_selection(custom, plugin).len() ==> #[trigger] plugin_selection(
                custom,
                plugin,
            )[i].0 != #[trigger] plugin_selection(custom, plugin)[j].0,
    decreases plugin.len(),
{
    if plugin.len() > 0 {
        let prev = plugin.drop_last();
        law_plugin_themes_never_shadow(custom, prev);
        let rest = plugin_selection(custom, prev);
        assert(plugin_selection(custom, prev) == plugin_selection(custom, plugin.drop_last()));
        assert forall|i: int| 0 <= i < rest.len() implies plugin.contains(#[trigger] rest[i]) by {
            assert(prev.contains(rest[i]));
            let k = choose|k: int| 0 <= k < prev.len() && prev[k] == rest[i];
            assert(plugin[k] == rest[i]);
        }
        let n = plugin.len() - 1;
        if plugin_theme_kept(custom, plugin, n) {
            let sel = rest.push(plugin.last());
            assert(plugin[n] == plugin.last());
            assert forall|i: int| 0 <= i < rest.len() implies #[trigger] rest[i].0 != plugin.last().0 by {
                assert(prev.contains(rest[i]));
                let k = choose|k: int| 0 <= k < prev.len() && prev[k] == rest[i];
                assert(plugin[k] == rest[i]);
            }
            assert forall|i: int, j: int| 0 <= i < j < sel.len() implies #[trigger] sel[i].0 != #[trigger] sel[j].0 by {
                if j == rest.len() {
                    assert(sel[i] == rest[i]);
                }
            }
        }
    }
}

/// The names in a sequence of theme entries.
pub open spec fn entry_names(s: Seq<(Seq<char>, Seq<char>)>) -> Seq<Seq<char>> {
    s.map_values(|e: (Seq<char>, Seq<char>)| e.0)
}

fn push_entry_names(out: &mut Vec<String>, v: &Vec<(String, String)>)
    ensures
        names_of(final(out)@) == names_of(old(out)@) + entry_names(entry_views(v@)),
{
    let ghost start = names_of(out@);
    let ghost ev = entry_views(v@);
    let mut i: usize = 0;
    while i < v.len()
        invariant
            i <= v@.len(),
            ev == entry_views(v@),
            names_of(out@) == start + entry_names(ev.take(i as int)),
        decreases v@.len() - i,
    {
        let ghost before = out@;
        out.push(owned(v[i].0.as_str()));
        assert(names_of(out@) =~= names_of(before).push(ev[i as int].0));
        assert(entry_names(ev.take(i + 1)) =~= entry_names(ev.take(i as int)).push(ev[i as int].0));
        i = i + 1;
    }
    assert(ev.take(v@.len() as int) =~= ev);
}

/// Every theme name on offer: built-in themes first, then the custom
/// themes, then the plugin themes that are offered.
pub fn available_themes(custom: &Vec<(String, String)>, plugin: &Vec<(String, String)>) -> (r: Vec<String>)
    ensures
        names_of(r@) == builtin_names() + entry_names(entry_views(custom@)) + entry_names(
            plugin_selection(entry_views(custom@), entry_views(plugin@)),
        ),
{
    let mut names = builtin_theme_names();
    push_entry_names(&mut names, custom);
    let offered = discover_plugin_themes(custom, plugin);
    push_entry_names(&mut names, &offered);
    names
}

// ---------------------------------------------------------------------------
// Resolving a theme name
// ---------------------------------------------------------------------------
/// Where a theme is loaded from.
pub enum ThemeSource {
    /// The built-in theme of that name.
    Builtin(String),
    /// A user theme file at that path.
    Custom(String),
    /// A plugin theme file at that path.
    Plugin(String),
}

pub enum SourceView {
    Builtin(Seq<char>),
    Custom(Seq<char>),
    Plugin(Seq<char>),
}

impl View for ThemeSource {
    type V = SourceView;

    open spec fn view(&self) -> SourceView {
        match self {
            ThemeSource::Builtin(n) => SourceView::Builtin(n@),
            ThemeSource::Custom(p) => SourceView::Custom(p@),
            ThemeSource::Plugin(p) => SourceView::Plugin(p@),
        }
    }
}

/// The path of the first entry named `name` whose file loads as a theme.
pub open spec fn first_loadable(
    name: Seq<char>,
    files: Seq<(Seq<char>, Seq<char>)>,
    loadable: Seq<Seq<char>>,
) -> Option<Seq<char>>
    decreases files.len(),
{
    if files.len() == 0 {
        None
    } else if files[0].0 == name && loadable.contains(files[0].1) {
        Some(files[0].1)
    } else {
        first_loadable(name, files.drop_first(), loadable)
    }
}

/// The source a theme name resolves to: a built-in theme of that name; else
/// the first custom theme of that name that loads; else the first offered
/// plugin theme of that name that loads; else the fallback built-in.
pub open spec fn theme_source(
    name: Seq<char>,
    custom: Seq<(Seq<char>, Seq<char>)>,
    plugin: Seq<(Seq<char>, Seq<char>)>,
    loadable: Seq<Seq<char>>,
) -> SourceView {
    if builtin_names().contains(name) {
        SourceView::Builtin(name)
    } else {
        match first_loadable(name, custom, loadable) {
            Some(p) => SourceView::Custom(p),
            None => match first_loadable(name, plugin_selection(custom, plugin), loadable) {
                Some(p) => SourceView::Plugin(p),
                None => SourceView::Builtin(fallback_theme()),
            },
        }
    }
}

fn find_loadable(name: &Vec<char>, files: &Vec<(String, String)>, loadable: &[String]) -> (r: Option<String>)
    ensures
        match r {
            Some(p) => first_loadable(name@, entry_views(files@), names_of(loadable@)) == Some(p@),
            None => first_loadable(name@, entry_views(files@), names_of(loadable@)) is None,
        },
{
    let ghost ev = entry_views(files@);
    let ghost lv = names_of(loadable@);
    let mut i: usize = 0;
    assert(ev.skip(0) =~= ev);
    while i < files.len()
        invariant
            i <= files@.len(),
            ev == entry_views(files@),
            lv == names_of(loadable@),
            first_loadable(name@, ev, lv) == first_loadable(name@, ev.skip(i as int), lv),
        decreases files@.len() - i,
    {
        assert(ev.skip(i as int)[0] == ev[i as int]);
        assert(ev.skip(i as int).drop_first() =~= ev.skip(i + 1));
        let n = chars_of(files[i].0.as_str());
        let p = chars_of(files[i].1.as_str());
        if seq_eq(&n, name) && contains_name(loadable, &p) {
            return Some(owned(files[i].1.as_str()));
        }
        i = i + 1;
    }
    assert(ev.skip(files@.len() as int) =~= Seq::<(Seq<char>, Seq<char>)>::empty());
    None
}

/// Resolve a theme name to the source it is loaded from. `custom` holds the
/// discovered custom themes, `plugin` the themes of active plugins, and
/// `loadable` the paths of the theme files that read and parse; an unknown
/// name falls back to the `zinc` built-in.
pub fn load_theme(
    name: &str,
    custom: &Vec<(String, String)>,
    plugin: &Vec<(String, String)>,
    loadable: &[String],
) -> (r: ThemeSource)
    ensures
        r@ == theme_source(name@, entry_views(custom@), entry_views(plugin@), names_of(loadable@)),
{
    if is_builtin_theme(name) {
        return ThemeSource::Builtin(owned(name));
    }
    let n = chars_of(name);
    match find_loadable(&n, custom, loadable) {
        Some(p) => ThemeSource::Custom(p),
        None => {
            let offered = discover_plugin_themes(custom, plugin);
            match find_loadable(&n, &offered, loadable) {
                Some(p) => ThemeSource::Plugin(p),
                None => ThemeSource::Builtin(owned("zinc")),
            }
        },
    }
}

/// Resolve a theme name as `load_theme` does, together with whether its
/// colors are to be reduced to the 256-color palette.
pub fn load_theme_with_mode(
    name: &str,
    palette_mode: bool,
    custom: &Vec<(String, String)>,
    plugin: &Vec<(String, String)>,
    loadable: &[String],
) -> (r: (ThemeSource, bool))
    ensures
        r.0@ == theme_source(name@, entry_views(custom@), entry_views(plugin@), names_of(loadable@)),
        r.1 == palette_mode,
{
    (load_theme(name, custom, plugin, loadable), palette_mode)
}

// ---------------------------------------------------------------------------
// Theme file contents
// ---------------------------------------------------------------------------
/// The top-level keys of `content` read as a TOML table, or `None` when it
/// does not parse as one.
pub uninterp spec fn toml_table_keys(content: Seq<char>) -> Option<Set<Seq<char>>>;

/// Parses `content` with `toml`'s `FromStr` for `toml::Table` and asks the
/// table whether it has the top-level key `key`. The contract names the parse
/// result by `toml_table_keys` and states only that the answer is membership
/// in it.
#[verifier::external_body]
fn toml_table_has_key(content: &str, key: &str) -> (r: Option<bool>)
    ensures
        match toml_table_keys(content@) {
            Some(keys) => r == Some(keys.contains(key@)),
            None => r is None,
        },
{
    content.parse::<toml::Table>().ok().map(|t| t.contains_key(key))
}

/// Whether a theme file leaves out its `unread` color, which then follows the
/// theme's own accent: the file parses as a TOML table without an `unread`
/// key. A file that does not parse omits nothing.
pub fn unread_omitted(content: &str) -> (r: bool)
    ensures
        r == (toml_table_keys(content@) matches Some(keys) && !keys.contains("unread"@)),
{
    unread_omitted_from(toml_table_has_key(content, "unread"))
}

/// Whether the `unread` color is left out, given whether the parsed table
/// has an `unread` key (`None` when the file did not parse).
pub fn unread_omitted_from(has_unread: Option<bool>) -> (r: bool)
    ensures
        r == (has_unread == Some(false)),
{
    match has_unread {
        Some(present) => !present,
        None => false,
    }
}

proof fn lemma_builtin_names_distinct()
    ensures
        builtin_names().len() == 9,
        builtin_names().no_duplicates(),
{
    reveal_strlit("boa");
    reveal_strlit("zinc");
    reveal_strlit("empire");
    reveal_strlit("phosphor");
    reveal_strlit("tokyo-night-storm");
    reveal_strlit("catppuccin-latte");
    reveal_strlit("dracula");
    reveal_strlit("rose-pine");
    reveal_strlit("deep-ocean");
    let b = builtin_names();
    assert forall|i: int, j: int| 0 <= i < b.len() && 0 <= j < b.len() && i != j implies b[i] != b[j] by {
        assert(b[i].len() != b[j].len());
    }
}

/// The theme catalogue lists no name twice, provided the custom themes have
/// distinct names none of which is built in (as theme files in one
/// directory, filtered of built-in names, do).
pub proof fn law_theme_catalogue_has_no_duplicates(
    custom: Seq<(Seq<char>, Seq<char>)>,
    plugin: Seq<(Seq<char>, Seq<char>)>,
)
    requires
        entry_names(custom).no_duplicates(),
        forall|c: int| 0 <= c < custom.len() ==> !builtin_names().contains(#[trigger] custom[c].0),
    ensures
        (builtin_names() + entry_names(custom) + entry_names(plugin_selection(custom, plugin))).no_duplicates(),
{
    lemma_builtin_names_distinct();
    law_plugin_themes_never_shadow(custom, plugin);
    let b = builtin_names();
    let c = entry_names(custom);
    let sel = plugin_selection(custom, plugin);
    let p = entry_names(sel);
    assert forall|i: int, j: int| 0 <= i < b.len() && 0 <= j < c.len() implies b[i] != c[j] by {
        assert(c[j] == custom[j].0);
        if b[i] == c[j] {
            assert(b.contains(custom[j].0));
        }
    }
    vstd::seq_lib::lemma_no_dup_in_concat(b, c);
    assert forall|i: int, j: int| 0 <= i < p.len() && 0 <= j < p.len() && i != j implies p[i] != p[j] by {
        assert(p[i] == sel[i].0 && p[j] == sel[j].0);
        if i < j {
            assert(sel[i].0 != sel[j].0);
        } else {
            assert(sel[j].0 != sel[i].0);
        }
    }
    let bc = b + c;
    assert forall|i: int, j: int| 0 <= i < bc.len() && 0 <= j < p.len() implies bc[i] != p[j] by {
        let e = sel[j];
        assert(p[j] == e.0);
        assert(!b.contains(e.0));
        if i < b.len() {
            assert(bc[i] == b[i]);
            if b[i] == e.0 {
                assert(b.contains(e.0));
            }
        } else {
            let k = i - b.len();
            assert(bc[i] == c[k]);
            assert(c[k] == custom[k].0);
            assert(custom[k].0 != e.0);
        }
    }
    vstd::seq_lib::lemma_no_dup_in_concat(bc, p);
}

proof fn lemma_stem_determines_file(f1: Seq<char>, f2: Seq<char>)
    requires
        toml_stem(f1) is Some,
        toml_stem(f1) == toml_stem(f2),
    ensures
        f1 == f2,
{
    reveal_strlit(".toml");
    let st = toml_stem(f1)->Some_0;
    assert(f1.skip(f1.len() - 5) == ".toml"@);
    assert(f2.skip(f2.len() - 5) == ".toml"@);
    assert(f1 =~= f1.take(f1.len() - 5) + f1.skip(f1.len() - 5));
    assert(f2 =~= f2.take(f2.len() - 5) + f2.skip(f2.len() - 5));
    assert(f1.take(f1.len() - 5) == st);
    assert(f2.take(f2.len() - 5) == st);
}

/// Facts about the custom-theme candidates of a directory whose file names
/// are distinct: none is built in, each comes from one of the entries, and
/// no two share a name.
proof fn lemma_candidates(entries: Seq<(Seq<char>, Seq<char>)>)
    requires
        entry_names(entries).no_duplicates(),
    ensures
        forall|k: int| 0 <= k < custom_candidates(entries).len() ==> !builtin_names().contains(
            #[trigger] custom_candidates(entries)[k].0,
        ) && exists|j: int| 0 <= j < entries.len() && toml_stem(entries[j].0) == Some(custom_candidates(entries)[k].0),
        entry_names(custom_candidates(entries)).no_duplicates(),
    decreases entries.len(),
{
    if entries.len() > 0 {
        let prev = entries.drop_last();
        assert forall|a: int, b: int| 0 <= a < entry_names(prev).len() && 0 <= b < entry_names(prev).len() && a != b
            implies entry_names(prev)[a] != entry_names(prev)[b] by {
            assert(entry_names(prev)[a] == entry_names(entries)[a]);
            assert(entry_names(prev)[b] == entry_names(entries)[b]);
        }
        lemma_candidates(prev);
        let rest = custom_candidates(prev);
        let c = custom_candidates(entries);
        let last = entries.last();
        let n = entries.len() - 1;
        assert(entries[n] == last);
        match toml_stem(last.0) {
            Some(stem) => if !builtin_names().contains(stem) {
                assert(c == rest.push((stem, last.1)));
                assert forall|k: int| 0 <= k < c.len() implies !builtin_names().contains(#[trigger] c[k].0)
                    && exists|j: int| 0 <= j < entries.len() && toml_stem(entries[j].0) == Some(c[k].0) by {
                    if k < rest.len() {
                        assert(c[k] == rest[k]);
                        let j = choose|j: int| 0 <= j < prev.len() && toml_stem(prev[j].0) == Some(rest[k].0);
                        assert(entries[j] == prev[j]);
                    } else {
                        assert(toml_stem(entries[n].0) == Some(c[k].0));
                    }
                }
                assert forall|a: int, b: int| 0 <= a < entry_names(c).len() && 0 <= b < entry_names(c).len() && a != b
                    implies entry_names(c)[a] != entry_names(c)[b] by {
                    if a < rest.len() && b < rest.len() {
                        assert(entry_names(c)[a] == entry_names(rest)[a]);
                        assert(entry_names(c)[b] == entry_names(rest)[b]);
                    } else {
                        let k = if a < rest.len() { a } else { b };
                        assert(k < rest.len());
                        assert(entry_names(c)[k] == rest[k].0);
                        assert(entry_names(c)[rest.len() as int] == stem);
                        if rest[k].0 == stem {
                            let j = choose|j: int| 0 <= j < prev.len() && toml_stem(prev[j].0) == Some(rest[k].0);
                            lemma_stem_determines_file(prev[j].0, last.0);
                            assert(entry_names(entries)[j] == entry_names(entries)[n]);
                        }
                    }
                }
            } else {
                assert(c == rest);
                assert forall|k: int| 0 <= k < c.len() implies exists|j: int| 0 <= j < entries.len() && toml_stem(
                    entries[j].0,
                ) == Some(#[trigger] c[k].0) by {
                    let j = choose|j: int| 0 <= j < prev.len() && toml_stem(prev[j].0) == Some(rest[k].0);
                    assert(entries[j] == prev[j]);
                }
            },
            None => {
                assert(c == rest);
                assert forall|k: int| 0 <= k < c.len() implies exists|j: int| 0 <= j < entries.len() && toml_stem(
                    entries[j].0,
                ) == Some(#[trigger] c[k].0) by {
                    let j = choose|j: int| 0 <= j < prev.len() && toml_stem(prev[j].0) == Some(rest[k].0);
                    assert(entries[j] == prev[j]);
                }
            },
        }
    }
}

/// The catalogue built from one themes directory lists no name twice: for
/// entries with distinct file names, the custom themes `select_custom_themes`
/// makes of them (any arrangement of the candidates) together with the
/// built-in and offered plugin themes have distinct names.
pub proof fn law_directory_catalogue_has_no_duplicates(
    entries: Seq<(Seq<char>, Seq<char>)>,
    custom: Seq<(Seq<char>, Seq<char>)>,
    plugin: Seq<(Seq<char>, Seq<char>)>,
)
    requires
        entry_names(entries).no_duplicates(),
        custom.to_multiset() == custom_candidates(entries).to_multiset(),
    ensures
        (builtin_names() + entry_names(custom) + entry_names(plugin_selection(custom, plugin))).no_duplicates(),
{
    lemma_candidates(entries);
    let cand = custom_candidates(entries);
    assert(cand.no_duplicates()) by {
        assert forall|a: int, b: int| 0 <= a < cand.len() && 0 <= b < cand.len() && a != b implies cand[a] != cand[b] by {
            assert(entry_names(cand)[a] == cand[a].0);
            assert(entry_names(cand)[b] == cand[b].0);
        }
    }
    cand.lemma_multiset_has_no_duplicates();
    custom.lemma_multiset_has_no_duplicates_conv();
    assert forall|i: int| 0 <= i < custom.len() implies cand.contains(#[trigger] custom[i]) by {
        vstd::seq_lib::to_multiset_contains(custom, custom[i]);
        vstd::seq_lib::to_multiset_contains(cand, custom[i]);
        assert(custom.contains(custom[i]));
    }
    assert forall|c: int| 0 <= c < custom.len() implies !builtin_names().contains(#[trigger] custom[c].0) by {
        assert(cand.contains(custom[c]));
        let k = choose|k: int| 0 <= k < cand.len() && cand[k] == custom[c];
        assert(!builtin_names().contains(cand[k].0));
    }
    assert forall|a: int, b: int| 0 <= a < entry_names(custom).len() && 0 <= b < entry_names(custom).len() && a != b
        implies entry_names(custom)[a] != entry_names(custom)[b] by {
        assert(entry_names(custom)[a] == custom[a].0);
        assert(entry_names(custom)[b] == custom[b].0);
        assert(cand.contains(custom[a]));
        assert(cand.contains(custom[b]));
        let ka = choose|k: int| 0 <= k < cand.len() && cand[k] == custom[a];
        let kb = choose|k: int| 0 <= k < cand.len() && cand[k] == custom[b];
        if custom[a].0 == custom[b].0 {
            assert(entry_names(cand)[ka] == entry_names(cand)[kb]);
            assert(ka == kb);
            assert(custom[a] == custom[b]);
        }
    }
    law_theme_catalogue_has_no_duplicates(custom, plugin);
}

} // verus!
