//! Settings-view logic: validation of `name=value` list entries for agent
//! overrides, custom agents, ACP launch commands and detection aliases, and
//! the fuzzy score of the settings-wide search.
use vstd::prelude::*;
use nucleo_matcher::pattern::{Atom, AtomKind, CaseMatching, Normalization};
use crate::text::{chars_of, is_ws, trim_start, contains_name, names_of, owned, push_all, split_once, split_once_chars, string_from, ws_split, ws_tokens};

verus! {

/// Which scope of settings is being edited.
#[derive(Debug, Clone, Copy, PartialEq, Eq, Structural)]
pub enum SettingsScope {
    Global,
    Profile,
    Repo,
}

/// Focus state of the settings view.
#[derive(Debug, Clone, Copy, PartialEq, Eq, Structural)]
pub enum SettingsFocus {
    Categories,
    Fields,
}

/// Result of handling a key event in the settings view.
pub enum SettingsAction {
    /// Continue showing the settings view.
    Continue,
    /// Close the settings view (with optional unsaved changes warning).
    Close,
    /// Close was cancelled due to unsaved changes.
    UnsavedChangesWarning,
    /// Live-preview a theme change (theme name).
    PreviewTheme(String),
}

// ---------------------------------------------------------------------------
// Agent names
// ---------------------------------------------------------------------------
/// `parts` joined with `sep` between consecutive parts.
pub open spec fn join(parts: Seq<Seq<char>>, sep: Seq<char>) -> Seq<char>
    decreases parts.len(),
{
    if parts.len() == 0 {
        seq![]
    } else if parts.len() == 1 {
        parts[0]
    } else {
        join(parts.drop_last(), sep) + sep + parts.last()
    }
}

/// `name` is one of the built-in agents.
pub open spec fn known(agents: Seq<String>, name: Seq<char>) -> bool {
    names_of(agents).contains(name)
}

/// The built-in agent names joined by `, `.
pub fn join_names(agents: &[String]) -> (r: String)
    ensures
        r@ == join(names_of(agents@), ", "@),
{
    let mut s = String::new();
    let ghost ns = names_of(agents@);
    let mut i: usize = 0;
    while i < agents.len()
        invariant
            i <= agents@.len(),
            ns == names_of(agents@),
            s@ == join(ns.take(i as int), ", "@),
        decreases agents@.len() - i,
    {
        assert(ns.take(i + 1).drop_last() =~= ns.take(i as int));
        assert(ns.take(i + 1).last() == agents@[i as int]@);
        if i > 0 {
            push_all(&mut s, ", ");
        } else {
            assert(ns.take(0) =~= Seq::<Seq<char>>::empty());
        }
        push_all(&mut s, agents[i].as_str());
        i = i + 1;
    }
    assert(ns.take(agents@.len() as int) =~= ns);
    s
}

// ---------------------------------------------------------------------------
// Entry validation
// ---------------------------------------------------------------------------
/// What `validate_agent_key_value` accepts and the error it reports otherwise.
pub open spec fn agent_key_value_verdict(text: Seq<char>, agents: Seq<String>) -> Result<
    (),
    Seq<char>,
> {
    match split_once(text, '=') {
        None => Err(
            "Must be in agent_name=value format (e.g. opencode=my-command). Known agents: "@ + join(
                names_of(agents),
                ", "@,
            ),
        ),
        Some((key, value)) => if key.len() == 0 {
            Err("Agent name cannot be empty"@)
        } else if value.len() == 0 {
            Err("Value cannot be empty"@)
        } else if !known(agents, key) {
            Err("'"@ + key + "' is not a known agent. Known agents: "@ + join(names_of(agents), ", "@))
        } else {
            Ok(())
        },
    }
}

pub open spec fn result_view(r: Result<(), String>) -> Result<(), Seq<char>> {
    match r {
        Ok(()) => Ok(()),
        Err(e) => Err(e@),
    }
}

fn err_with(prefix: &str, middle: &Vec<char>, suffix: &str) -> (r: Result<(), String>)
    ensures
        result_view(r) == Err::<(), Seq<char>>(prefix@ + middle@ + suffix@),
{
    let mut s = owned(prefix);
    let m = string_from(middle);
    push_all(&mut s, m.as_str());
    push_all(&mut s, suffix);
    Err(s)
}

fn err_text(msg: &str) -> (r: Result<(), String>)
    ensures
        result_view(r) == Err::<(), Seq<char>>(msg@),
{
    Err(owned(msg))
}

/// Validate an `agent_name=value` entry (agent extra args and command
/// overrides): the name must be a built-in agent and the value non-empty.
pub fn validate_agent_key_value(text: &str, agents: &[String]) -> (r: Result<(), String>)
    ensures
        result_view(r) == agent_key_value_verdict(text@, agents@),
{
    let cs = chars_of(text);
    let (key, value) = match split_once_chars(&cs, '=') {
        None => {
            let names = join_names(agents);
            let mut s = owned(
                "Must be in agent_name=value format (e.g. opencode=my-command). Known agents: ",
            );
            push_all(&mut s, names.as_str());
            return Err(s);
        },
        Some(p) => p,
    };
    if key.len() == 0 {
        return err_text("Agent name cannot be empty");
    }
    if value.len() == 0 {
        return err_text("Value cannot be empty");
    }
    if !contains_name(agents, &key) {
        let names = join_names(agents);
        let mut s = owned("'");
        let k = string_from(&key);
        push_all(&mut s, k.as_str());
        push_all(&mut s, "' is not a known agent. Known agents: ");
        push_all(&mut s, names.as_str());
        return Err(s);
    }
    Ok(())
}

/// What `validate_custom_agent_entry` accepts and the error it reports otherwise.
pub open spec fn custom_agent_verdict(text: Seq<char>, agents: Seq<String>) -> Result<
    (),
    Seq<char>,
> {
    match split_once(text, '=') {
        None => Err("Must be in name=command format (e.g. lenovo-opencode=ssh -t lenovo opencode)"@),
        Some((key, value)) => if key.len() == 0 {
            Err("Agent name cannot be empty"@)
        } else if value.len() == 0 {
            Err("Command cannot be empty"@)
        } else if known(agents, key) {
            Err(
                "'"@ + key
                    + "' is a built-in agent. Use Agent Command Override to override built-in agents."@,
            )
        } else {
            Ok(())
        },
    }
}

/// Validate a custom agent entry `name=command`: the name must not collide
/// with a built-in agent.
pub fn validate_custom_agent_entry(text: &str, agents: &[String]) -> (r: Result<(), String>)
    ensures
        result_view(r) == custom_agent_verdict(text@, agents@),
{
    let cs = chars_of(text);
    let (key, value) = match split_once_chars(&cs, '=') {
        None => {
            return err_text(
                "Must be in name=command format (e.g. lenovo-opencode=ssh -t lenovo opencode)",
            );
        },
        Some(p) => p,
    };
    if key.len() == 0 {
        return err_text("Agent name cannot be empty");
    }
    if value.len() == 0 {
        return err_text("Command cannot be empty");
    }
    if contains_name(agents, &key) {
        return err_with(
            "'",
            &key,
            "' is a built-in agent. Use Agent Command Override to override built-in agents.",
        );
    }
    Ok(())
}

/// The words `shell_words::split` makes of a command line, or `None` when the
/// quoting is malformed.
pub uninterp spec fn shell_split(s: Seq<char>) -> Option<Seq<Seq<char>>>;

/// Calls `shell_words::split`, which splits a command line into words with
/// POSIX shell quoting rules and fails only on an unclosed quote (its error
/// type carries no data). The contract only ties the result to the input
/// through `shell_split`; what the words are is not stated.
#[verifier::external_body]
fn shell_words_split(s: &str) -> (r: Option<Vec<String>>)
    ensures
        match r {
            Some(v) => shell_split(s@) == Some(v@.map_values(|w: String| w@)),
            None => shell_split(s@) is None,
        },
{
    shell_words::split(s).ok()
}

/// The verdict on a split ACP launch command: malformed quoting and an empty
/// word list are errors.
pub open spec fn acp_command_verdict(words: Option<Seq<Seq<char>>>) -> Result<(), Seq<char>> {
    match words {
        None => Err("Malformed command: missing closing quote"@),
        Some(ws) => if ws.len() == 0 {
            Err("Command cannot be empty"@)
        } else {
            Ok(())
        },
    }
}

/// Check the words an ACP launch command split into (`None` when its quoting
/// was malformed).
pub fn check_acp_command_words(words: Option<Vec<String>>) -> (r: Result<(), String>)
    ensures
        result_view(r) == acp_command_verdict(
            match words {
                Some(v) => Some(v@.map_values(|w: String| w@)),
                None => None,
            },
        ),
{
    match words {
        None => err_text("Malformed command: missing closing quote"),
        Some(v) => {
            if v.len() == 0 {
                err_text("Command cannot be empty")
            } else {
                Ok(())
            }
        },
    }
}

/// What `validate_acp_cmd_entry` accepts and the error it reports otherwise.
pub open spec fn acp_cmd_verdict(text: Seq<char>, agents: Seq<String>) -> Result<(), Seq<char>> {
    match split_once(text, '=') {
        None => Err("Must be in name=command format (e.g. oc-superpowers=ocp run sp acp)"@),
        Some((key, value)) => if key.len() == 0 {
            Err("Agent name cannot be empty"@)
        } else if known(agents, key) {
            Err("'"@ + key + "' is a built-in agent, which already has an acp adapter."@)
        } else {
            acp_command_verdict(shell_split(value))
        },
    }
}

/// Validate an ACP launch entry `name=command`: the name must not be a
/// built-in agent, and the command must split into at least one shell word.
pub fn validate_acp_cmd_entry(text: &str, agents: &[String]) -> (r: Result<(), String>)
    ensures
        result_view(r) == acp_cmd_verdict(text@, agents@),
{
    let cs = chars_of(text);
    let (key, value) = match split_once_chars(&cs, '=') {
        None => {
            return err_text("Must be in name=command format (e.g. oc-superpowers=ocp run sp acp)");
        },
        Some(p) => p,
    };
    if key.len() == 0 {
        return err_text("Agent name cannot be empty");
    }
    if contains_name(agents, &key) {
        return err_with("'", &key, "' is a built-in agent, which already has an acp adapter.");
    }
    let v = string_from(&value);
    check_acp_command_words(shell_words_split(v.as_str()))
}

/// What `validate_detect_as_entry` accepts and the error it reports otherwise.
pub open spec fn detect_as_verdict(text: Seq<char>, agents: Seq<String>) -> Result<(), Seq<char>> {
    match split_once(text, '=') {
        None => Err("Must be in name=builtin format (e.g. lenovo-opencode=opencode)"@),
        Some((key, value)) => if key.len() == 0 {
            Err("Agent name cannot be empty"@)
        } else if value.len() == 0 {
            Err("Built-in agent name cannot be empty"@)
        } else if !known(agents, value) {
            Err(
                "'"@ + value + "' is not a known built-in agent. Known agents: "@ + join(
                    names_of(agents),
                    ", "@,
                ),
            )
        } else {
            Ok(())
        },
    }
}

/// Validate a detection alias `name=builtin_agent`: the value must be a
/// built-in agent.
pub fn validate_detect_as_entry(text: &str, agents: &[String]) -> (r: Result<(), String>)
    ensures
        result_view(r) == detect_as_verdict(text@, agents@),
{
    let cs = chars_of(text);
    let (key, value) = match split_once_chars(&cs, '=') {
        None => {
            return err_text("Must be in name=builtin format (e.g. lenovo-opencode=opencode)");
        },
        Some(p) => p,
    };
    if key.len() == 0 {
        return err_text("Agent name cannot be empty");
    }
    if value.len() == 0 {
        return err_text("Built-in agent name cannot be empty");
    }
    if !contains_name(agents, &value) {
        let names = join_names(agents);
        let mut s = owned("'");
        let v = string_from(&value);
        push_all(&mut s, v.as_str());
        push_all(&mut s, "' is not a known built-in agent. Known agents: ");
        push_all(&mut s, names.as_str());
        return Err(s);
    }
    Ok(())
}

// ---------------------------------------------------------------------------
// Settings search
// ---------------------------------------------------------------------------
/// The score the fuzzy matcher gives one query token against a haystack, or
/// `None` when the token does not match.
pub uninterp spec fn fuzzy_token_score(token: Seq<char>, haystack: Seq<char>) -> Option<u16>;

/// Scores one token with `nucleo_matcher`: builds a `Matcher` with the
/// default configuration, the token's fuzzy `Atom` (case ignored, smart
/// normalization, no whitespace escapes) and the haystack's `Utf32Str`, then
/// calls `Atom::score`. The contract ties the result to both inputs through
/// `fuzzy_token_score` and says nothing of its value. The matcher asserts
/// that the haystack it builds is at most `u32::MAX` long; that is the
/// UTF-8 byte length for a haystack of ASCII-led graphemes and the grapheme
/// count otherwise, never more than the byte length, so haystacks of more
/// than `u32::MAX` bytes are excluded.
#[verifier::external_body]
fn nucleo_token_score(token: &str, haystack: &str) -> (r: Option<u16>)
    requires
        vstd::utf8::encode_utf8(haystack@).len() <= u32::MAX,
    ensures
        r == fuzzy_token_score(token@, haystack@),
{
    let mut matcher = nucleo_matcher::Matcher::new(nucleo_matcher::Config::DEFAULT);
    let mut buf = Vec::new();
    let atom = Atom::new(token, CaseMatching::Ignore, Normalization::Smart, AtomKind::Fuzzy, false);
    atom.score(nucleo_matcher::Utf32Str::new(haystack, &mut buf), &mut matcher)
}

/// Sum of token scores, `None` as soon as one token does not match.
pub open spec fn total_score(scores: Seq<Option<u16>>) -> Option<nat>
    decreases scores.len(),
{
    if scores.len() == 0 {
        Some(0)
    } else {
        match (total_score(scores.drop_last()), scores.last()) {
            (Some(t), Some(s)) => Some(t + s as nat),
            _ => None,
        }
    }
}

/// The scores of every token against the haystack.
pub open spec fn token_scores(tokens: Seq<Seq<char>>, haystack: Seq<char>) -> Seq<Option<u16>> {
    tokens.map_values(|t: Seq<char>| fuzzy_token_score(t, haystack))
}

/// A total as a `u32` addition leaves it: modulo 2^32, as the release
/// build's `+=` wraps.
pub open spec fn wrapped(n: nat) -> nat {
    n % 0x1_0000_0000
}

proof fn lemma_wrapping_step(t: nat, total: u32, s: u16)
    requires
        total as nat == wrapped(t),
    ensures
        vstd::wrapping::u32_specs::wrapping_add(total, s as u32) as nat == wrapped(t + s as nat),
{
    let m: int = 0x1_0000_0000;
    vstd::arithmetic::div_mod::lemma_add_mod_noop(t as int, s as int, m);
    vstd::arithmetic::div_mod::lemma_small_mod(s as nat, m as nat);
    let x = total as int + s as int;
    if x >= m {
        vstd::arithmetic::div_mod::lemma_small_mod((x - m) as nat, m as nat);
        vstd::arithmetic::div_mod::lemma_mod_sub_multiples_vanish(x, m);
    } else {
        vstd::arithmetic::div_mod::lemma_small_mod(x as nat, m as nat);
    }
}

/// Combine per-token scores: every token must match (AND semantics), and the
/// scores add up in a `u32` that wraps past its maximum.
pub fn sum_token_scores(scores: &Vec<Option<u16>>) -> (r: Option<u32>)
    ensures
        match r {
            Some(t) => total_score(scores@) matches Some(sum) && t as nat == wrapped(sum),
            None => total_score(scores@) is None,
        },
{
    let mut total: u32 = 0;
    let mut i: usize = 0;
    while i < scores.len()
        invariant
            i <= scores@.len(),
            total_score(scores@.take(i as int)) matches Some(t) && total as nat == wrapped(t),
        decreases scores@.len() - i,
    {
        assert(scores@.take(i + 1).drop_last() =~= scores@.take(i as int));
        match scores[i] {
            Some(s) => {
                proof {
                    let t = total_score(scores@.take(i as int))->Some_0;
                    lemma_wrapping_step(t, total, s);
                }
                total = total.wrapping_add(s as u32);
            },
            None => {
                proof {
                    lemma_total_none_stays(scores@, i as int + 1);
                }
                return None;
            },
        }
        i = i + 1;
    }
    assert(scores@.take(scores@.len() as int) =~= scores@);
    Some(total)
}

proof fn lemma_total_none_stays(scores: Seq<Option<u16>>, n: int)
    requires
        0 < n <= scores.len(),
        total_score(scores.take(n)) is None,
    ensures
        total_score(scores) is None,
    decreases scores.len() - n,
{
    if n < scores.len() {
        assert(scores.take(n + 1).drop_last() =~= scores.take(n));
        lemma_total_none_stays(scores, n + 1);
    } else {
        assert(scores.take(n) =~= scores);
    }
}

/// Fuzzy-score a field's searchable text against a settings-search query:
/// every whitespace-separated token must match and the token scores are
/// summed (in a `u32` that wraps past its maximum); an empty query scores 0.
pub fn fuzzy_settings_score(query: &str, haystack: &str) -> (r: Option<u32>)
    requires
        vstd::utf8::encode_utf8(haystack@).len() <= u32::MAX,
    ensures
        match r {
            Some(t) => total_score(token_scores(ws_tokens(query@), haystack@)) matches Some(sum) && t as nat
                == wrapped(sum),
            None => total_score(token_scores(ws_tokens(query@), haystack@)) is None,
        },
{
    let qs = chars_of(query);
    let tokens = ws_split(&qs);
    let ghost ts = ws_tokens(query@);
    let mut scores: Vec<Option<u16>> = Vec::new();
    let mut i: usize = 0;
    while i < tokens.len()
        invariant
            i <= tokens@.len(),
            tokens@.map_values(|x: Vec<char>| x@) == ts,
            vstd::utf8::encode_utf8(haystack@).len() <= u32::MAX,
            scores@ == token_scores(ts.take(i as int), haystack@),
        decreases tokens@.len() - i,
    {
        let t = string_from(&tokens[i]);
        assert(t@ == ts[i as int]);
        let s = nucleo_token_score(t.as_str(), haystack);
        scores.push(s);
        i = i + 1;
        assert(scores@ =~= token_scores(ts.take(i as int), haystack@));
    }
    assert(ts.take(tokens@.len() as int) =~= ts);
    sum_token_scores(&scores)
}

proof fn lemma_trim_start_blank(s: Seq<char>)
    requires
        forall|i: int| 0 <= i < s.len() ==> is_ws(#[trigger] s[i]),
    ensures
        trim_start(s).len() == 0,
    decreases s.len(),
{
    if s.len() > 0 {
        assert(is_ws(s[0]));
        assert forall|i: int| 0 <= i < s.drop_first().len() implies is_ws(#[trigger] s.drop_first()[i]) by {
            assert(s.drop_first()[i] == s[i + 1]);
        }
        lemma_trim_start_blank(s.drop_first());
    }
}

/// A query of whitespace alone (the empty query among them) scores every
/// field 0, so the search lists all fields.
pub proof fn law_blank_query_scores_zero(query: Seq<char>, haystack: Seq<char>)
    requires
        forall|i: int| 0 <= i < query.len() ==> is_ws(#[trigger] query[i]),
    ensures
        total_score(token_scores(ws_tokens(query), haystack)) == Some(0nat),
{
    lemma_trim_start_blank(query);
    assert(ws_tokens(query) =~= Seq::<Seq<char>>::empty());
    assert(token_scores(ws_tokens(query), haystack) =~= Seq::<Option<u16>>::empty());
}

/// Every token must match: the scores add up to a total exactly when no
/// token's score is missing.
pub proof fn law_all_tokens_must_match(scores: Seq<Option<u16>>)
    ensures
        total_score(scores) is Some <==> forall|i: int| 0 <= i < scores.len() ==> (#[trigger] scores[i]) is Some,
    decreases scores.len(),
{
    if scores.len() > 0 {
        law_all_tokens_must_match(scores.drop_last());
        if forall|i: int| 0 <= i < scores.len() ==> (#[trigger] scores[i]) is Some {
            assert forall|i: int| 0 <= i < scores.drop_last().len() implies (
            #[trigger] scores.drop_last()[i]) is Some by {
                assert(scores.drop_last()[i] == scores[i]);
            }
            assert(scores[scores.len() - 1] is Some);
        }
        if total_score(scores) is Some {
            assert forall|i: int| 0 <= i < scores.len() implies (#[trigger] scores[i]) is Some by {
                if i < scores.len() - 1 {
                    assert(scores.drop_last()[i] == scores[i]);
                }
            }
        }
    }
}

/// The text a field is searched by: its label, a space, its description.
pub open spec fn search_text(label: Seq<char>, description: Seq<char>) -> Seq<char> {
    label + seq![' '] + description
}

/// Builds a field's search text.
pub fn field_search_text(label: &str, description: &str) -> (r: String)
    ensures
        r@ == search_text(label@, description@),
{
    let mut r = owned(label);
    r.push(' ');
    push_all(&mut r, description);
    r
}

/// The score of a field that matched.
pub open spec fn hit_score(scores: Seq<Option<u32>>, x: usize) -> int {
    match scores[x as int] {
        Some(s) => s as int,
        None => 0,
    }
}

/// Search order: the higher score first, and between equal scores the
/// field that comes first.
pub open spec fn ranks_before(scores: Seq<Option<u32>>, a: usize, b: usize) -> bool {
    hit_score(scores, a) > hit_score(scores, b) || (hit_score(scores, a) == hit_score(scores, b) && a < b)
}

/// `r` lists every matching field (score `Some`) once, by index, in search
/// order; the fields that did not match are left out.
pub open spec fn ranked_hits(scores: Seq<Option<u32>>, r: Seq<usize>) -> bool {
    &&& forall|k: int| 0 <= k < r.len() ==> r[k] < scores.len() && (#[trigger] scores[r[k] as int]) is Some
    &&& forall|i: int| 0 <= i < scores.len() && (#[trigger] scores[i]) is Some ==> r.contains(i as usize)
    &&& forall|k: int, l: int| 0 <= k < l < r.len() ==> ranks_before(scores, #[trigger] r[k], #[trigger] r[l])
}

fn score_below(scores: &[Option<u32>], x: usize, s: u32) -> (b: bool)
    requires
        x < scores@.len(),
    ensures
        b == (scores@[x as int] is Some && hit_score(scores@, x) < s),
{
    match scores[x] {
        Some(t) => t < s,
        None => false,
    }
}

/// The invariant of the ranking loop: `r` holds, in search order, the
/// matching fields below `i`.
pub open spec fn ranked_below(scores: Seq<Option<u32>>, r: Seq<usize>, i: int) -> bool {
    &&& forall|k: int| #![trigger r[k]] 0 <= k < r.len() ==> r[k] < i && scores[r[k] as int] is Some
    &&& forall|j: int| 0 <= j < i && (#[trigger] scores[j]) is Some ==> r.contains(j as usize)
    &&& forall|k: int, l: int| 0 <= k < l < r.len() ==> ranks_before(scores, #[trigger] r[k], #[trigger] r[l])
}

proof fn lemma_insert_hit(scores: Seq<Option<u32>>, before: Seq<usize>, p: int, i: int, s: u32)
    requires
        0 <= i < scores.len(),
        i <= usize::MAX,
        scores[i] == Some(s),
        ranked_below(scores, before, i),
        0 <= p <= before.len(),
        forall|q: int| 0 <= q < p ==> hit_score(scores, #[trigger] before[q]) >= s,
        p < before.len() ==> hit_score(scores, before[p]) < s,
    ensures
        ranked_below(scores, before.insert(p, i as usize), i + 1),
{
    let after = before.insert(p, i as usize);
    before.insert_ensures(p, i as usize);
    assert forall|k: int| p < k < after.len() implies after[k] == before[k - 1] by {
        assert(after[(k - 1) + 1] == before[k - 1]);
    }
    assert forall|q: int| p <= q < before.len() implies hit_score(scores, #[trigger] before[q]) < s by {
        if q > p {
            assert(ranks_before(scores, before[p], before[q]));
        }
    }
    assert forall|k: int| #![trigger after[k]] 0 <= k < after.len() implies after[k] < i + 1 && scores[after[k] as int] is Some by {
        if k < p {
            assert(after[k] == before[k]);
        } else if k > p {
            assert(after[k] == before[k - 1]);
        }
    }
    assert forall|j: int| 0 <= j < i + 1 && (#[trigger] scores[j]) is Some implies after.contains(j as usize) by {
        if j == i {
            assert(after[p] == i);
        } else {
            let k = choose|k: int| 0 <= k < before.len() && before[k] == j as usize;
            if k < p {
                assert(after[k] == before[k]);
            } else {
                assert(after[k + 1] == before[k]);
            }
        }
    }
    assert forall|k: int, l: int| 0 <= k < l < after.len() implies ranks_before(scores, #[trigger] after[k], #[trigger] after[l]) by {
        if l < p {
            assert(after[k] == before[k] && after[l] == before[l]);
        } else if l == p {
            assert(after[k] == before[k]);
            assert(before[k] < i);
        } else if k < p {
            assert(after[k] == before[k] && after[l] == before[l - 1]);
        } else if k == p {
            assert(after[l] == before[l - 1]);
        } else {
            assert(after[k] == before[k - 1] && after[l] == before[l - 1]);
        }
    }
}

/// Orders the search hits: the fields whose score is `Some`, by decreasing
/// score, fields with equal scores (every field, for an empty query) in
/// their own order.
pub fn rank_hits(scores: &[Option<u32>]) -> (r: Vec<usize>)
    ensures
        ranked_hits(scores@, r@),
{
    let mut r: Vec<usize> = Vec::new();
    let mut i: usize = 0;
    while i < scores.len()
        invariant
            i <= scores@.len(),
            ranked_below(scores@, r@, i as int),
        decreases scores@.len() - i,
    {
        match scores[i] {
            Some(s) => {
                let mut p: usize = 0;
                while p < r.len() && !score_below(scores, r[p], s)
                    invariant
                        p <= r@.len(),
                        i < scores@.len(),
                        ranked_below(scores@, r@, i as int),
                        forall|q: int| 0 <= q < p ==> hit_score(scores@, #[trigger] r@[q]) >= s,
                    decreases r@.len() - p,
                {
                    p = p + 1;
                }
                proof {
                    lemma_insert_hit(scores@, r@, p as int, i as int, s);
                }
                r.insert(p, i);
            },
            None => {},
        }
        i = i + 1;
    }
    r
}

/// The settings search: scores each field's search text against the query
/// and returns the matching fields, by index, in search order.
pub fn search_hits(query: &str, texts: &[String]) -> (r: Vec<usize>)
    requires
        forall|i: int| 0 <= i < texts@.len() ==> vstd::utf8::encode_utf8((#[trigger] texts@[i])@).len() <= u32::MAX,
    ensures
        exists|scores: Seq<Option<u32>>| {
            &&& scores.len() == texts@.len()
            &&& forall|i: int| 0 <= i < texts@.len() ==> match #[trigger] scores[i] {
                Some(t) => total_score(token_scores(ws_tokens(query@), texts@[i]@)) matches Some(sum) && t as nat
                    == wrapped(sum),
                None => total_score(token_scores(ws_tokens(query@), texts@[i]@)) is None,
            }
            &&& ranked_hits(scores, r@)
        },
{
    let mut scores: Vec<Option<u32>> = Vec::new();
    let mut i: usize = 0;
    while i < texts.len()
        invariant
            i <= texts@.len(),
            scores@.len() == i,
            forall|i: int| 0 <= i < texts@.len() ==> vstd::utf8::encode_utf8((#[trigger] texts@[i])@).len() <= u32::MAX,
            forall|j: int| 0 <= j < i ==> match #[trigger] scores@[j] {
                Some(t) => total_score(token_scores(ws_tokens(query@), texts@[j]@)) matches Some(sum) && t as nat
                    == wrapped(sum),
                None => total_score(token_scores(ws_tokens(query@), texts@[j]@)) is None,
            },
        decreases texts@.len() - i,
    {
        let s = fuzzy_settings_score(query, texts[i].as_str());
        scores.push(s);
        i = i + 1;
    }
    let r = rank_hits(&scores);
    r
}

proof fn lemma_prefix_identity(scores: Seq<Option<u32>>, r: Seq<usize>, k: int)
    requires
        0 <= k <= r.len(),
        ranked_hits(scores, r),
        forall|i: int| 0 <= i < scores.len() ==> #[trigger] scores[i] == Some(0u32),
    ensures
        forall|j: int| 0 <= j < k ==> r[j] == j,
    decreases k,
{
    if k > 0 {
        lemma_prefix_identity(scores, r, k - 1);
        let m = k - 1;
        if m > 0 {
            assert(ranks_before(scores, r[m - 1], r[m]));
        }
        assert(r[m] >= m);
        assert(scores[r[m] as int] is Some);
        assert(m < scores.len());
        assert(scores[m] == Some(0u32));
        assert(r.contains(m as usize));
        let idx = choose|idx: int| 0 <= idx < r.len() && r[idx] == m as usize;
        if idx < m {
            assert(r[idx] == idx);
        } else if idx > m {
            assert(ranks_before(scores, r[m], r[idx]));
        }
    }
}

/// With an empty query every field scores 0, and the search then lists
/// every field, in its own order.
pub proof fn law_blank_query_lists_every_field_in_order(scores: Seq<Option<u32>>, r: Seq<usize>)
    requires
        scores.len() <= usize::MAX,
        forall|i: int| 0 <= i < scores.len() ==> #[trigger] scores[i] == Some(0u32),
        ranked_hits(scores, r),
    ensures
        r == Seq::new(scores.len(), |i: int| i as usize),
{
    lemma_prefix_identity(scores, r, r.len() as int);
    if r.len() > 0 {
        assert(scores[r[r.len() - 1] as int] is Some);
    }
    if r.len() < scores.len() {
        let n = r.len() as int;
        assert(scores[n] == Some(0u32));
        assert(r.contains(n as usize));
        let idx = choose|idx: int| 0 <= idx < r.len() && r[idx] == n as usize;
        assert(r[idx] == idx);
    }
    assert(r.len() == scores.len());
    assert forall|j: int| 0 <= j < r.len() implies r[j] == j as usize by {
        assert(r[j] == j);
    }
    assert(r =~= Seq::new(scores.len(), |i: int| i as usize));
}

/// The search cursor after the hit list was rebuilt with `n_hits` hits: kept
/// where it is while it still points at a hit, else on the last hit (0 for
/// no hits).
pub fn clamp_search_selection(selected: usize, n_hits: usize) -> (r: usize)
    ensures
        selected < n_hits ==> r == selected,
        selected >= n_hits ==> r == (if n_hits == 0 { 0 } else { n_hits - 1 }),
{
    if selected >= n_hits {
        if n_hits == 0 { 0 } else { n_hits - 1 }
    } else {
        selected
    }
}

/// Up and Down in the search overlay: one hit up or down, stopping at the
/// first and the last hit.
pub fn move_search_selection(selected: usize, n_hits: usize, up: bool) -> (r: usize)
    ensures
        up ==> r == (if selected > 0 { selected - 1 } else { 0 }),
        !up ==> r == (if selected + 1 < n_hits { selected + 1 } else { selected as int }),
{
    if up {
        if selected > 0 { selected - 1 } else { 0 }
    } else if selected < n_hits && selected + 1 < n_hits {
        selected + 1
    } else {
        selected
    }
}

} // verus!
