//! Self-update decisions: how BOA was installed, which release asset fits the
//! platform, what the confirmation prompt says, and what each install method
//! does to update.
use vstd::prelude::*;
use crate::paths::{components, components_of, comps_eq, comps_prefix, comps_starts_with, parent_comps, root_comp, views};
use crate::text::{
    chars_of, ends_with_chars, has_suffix, lines_of, owned, push_all, seq_eq, split_chars,
    split_on, str_eq, string_from, trim, trim_chars, ws_tokens, lemma_split_step, lemma_split_last,
    strip_cr,
};
use crate::version::{is_newer_version, newer, strip_v};

verus! {

/// How the running binary was installed.
#[derive(Debug, Clone, PartialEq, Eq)]
pub enum InstallMethod {
    Homebrew,
    Tarball { binary_path: String },
    Nix,
    Cargo,
    Unknown { binary_path: String },
}

/// The mathematical content of an [`InstallMethod`].
pub enum MethodView {
    Homebrew,
    Tarball(Seq<char>),
    Nix,
    Cargo,
    Unknown(Seq<char>),
}

impl View for InstallMethod {
    type V = MethodView;

    open spec fn view(&self) -> MethodView {
        match self {
            InstallMethod::Homebrew => MethodView::Homebrew,
            InstallMethod::Tarball { binary_path } => MethodView::Tarball(binary_path@),
            InstallMethod::Nix => MethodView::Nix,
            InstallMethod::Cargo => MethodView::Cargo,
            InstallMethod::Unknown { binary_path } => MethodView::Unknown(binary_path@),
        }
    }
}

// ---------------------------------------------------------------------------
// Install-method classification
// ---------------------------------------------------------------------------
/// Components of `/nix/store/`.
pub open spec fn nix_store() -> Seq<Seq<char>> {
    seq![root_comp(), "nix"@, "store"@]
}

/// Components of `/usr/local/bin`.
pub open spec fn usr_local_bin() -> Seq<Seq<char>> {
    seq![root_comp(), "usr"@, "local"@, "bin"@]
}

/// The directories a tarball install puts the binary in.
pub open spec fn tarball_dir(dir: Seq<Seq<char>>, home: Seq<char>) -> bool {
    ||| dir == usr_local_bin()
    ||| dir == components(home) + seq![".local"@, "bin"@]
    ||| dir == components(home) + seq!["bin"@]
}

/// Classification by path prefix alone.
pub open spec fn classify_prefix(bin: Seq<char>, home: Seq<char>) -> MethodView {
    let c = components(bin);
    if comps_prefix(c, nix_store()) {
        MethodView::Nix
    } else if comps_prefix(c, components(home) + seq![".cargo"@, "bin"@]) {
        MethodView::Cargo
    } else if parent_comps(c) matches Some(dir) && tarball_dir(dir, home) {
        MethodView::Tarball(bin)
    } else {
        MethodView::Unknown(bin)
    }
}

fn lit_comps(a: &str, b: &str) -> (r: Vec<Vec<char>>)
    ensures
        views(r@) == seq![a@, b@],
{
    let r = vec![chars_of(a), chars_of(b)];
    assert(views(r@) =~= seq![a@, b@]);
    r
}

proof fn lemma_views_push(s: Seq<Vec<char>>, x: Vec<char>)
    ensures
        views(s.push(x)) == views(s).push(x@),
{
    assert(views(s.push(x)) =~= views(s).push(x@));
}

fn append_comps(a: &Vec<Vec<char>>, b: &Vec<Vec<char>>) -> (r: Vec<Vec<char>>)
    ensures
        views(r@) == views(a@) + views(b@),
{
    let mut r: Vec<Vec<char>> = Vec::new();
    let mut i: usize = 0;
    while i < a.len()
        invariant
            i <= a.len(),
            views(r@) == views(a@).take(i as int),
        decreases a.len() - i,
    {
        let x = a[i].clone();
        proof {
            lemma_views_push(r@, x);
            assert(views(a@).take(i + 1) =~= views(a@).take(i as int).push(a@[i as int]@));
        }
        r.push(x);
        i = i + 1;
    }
    let mut j: usize = 0;
    while j < b.len()
        invariant
            j <= b.len(),
            views(r@) == views(a@) + views(b@).take(j as int),
        decreases b.len() - j,
    {
        let x = b[j].clone();
        proof {
            lemma_views_push(r@, x);
            assert(views(b@).take(j + 1) =~= views(b@).take(j as int).push(b@[j as int]@));
            assert(views(a@) + views(b@).take(j + 1) =~= (views(a@) + views(b@).take(j as int)).push(b@[j as int]@));
        }
        r.push(x);
        j = j + 1;
    }
    assert(views(b@).take(b.len() as int) =~= views(b@));
    assert(views(a@).take(a.len() as int) =~= views(a@));
    r
}

/// Prefix-based classification of the running binary's path, given the
/// user's home directory. Both paths are compared by components, so callers
/// must canonicalize both alike.
pub fn classify_path_prefix(binary_path: &str, home: &str) -> (r: InstallMethod)
    ensures
        r@ == classify_prefix(binary_path@, home@),
{
    let c = components_of(binary_path);
    let h = components_of(home);
    let slash = vec!['/'];
    assert(slash@ =~= root_comp());
    let nix = vec![slash, chars_of("nix"), chars_of("store")];
    assert(views(nix@) =~= nix_store());
    if comps_starts_with(&c, &nix) {
        return InstallMethod::Nix;
    }
    let cargo_bin = append_comps(&h, &lit_comps(".cargo", "bin"));
    if comps_starts_with(&c, &cargo_bin) {
        return InstallMethod::Cargo;
    }
    let ghost cv = components(binary_path@);
    if c.len() > 0 && !(c[c.len() - 1].len() == 1 && c[c.len() - 1][0] == '/') {
        let ghost last = cv.last();
        assert(last == root_comp() ==> c@[c.len() - 1]@.len() == 1
            && c@[c.len() - 1]@[0] == '/');
        assert(c@[c.len() - 1]@.len() == 1 && c@[c.len() - 1]@[0] == '/' ==> c@[c.len()
            - 1]@ =~= root_comp());
        let mut parent: Vec<Vec<char>> = c.clone();
        parent.pop();
        assert(views(parent@) =~= cv.drop_last());
        let slash = vec!['/'];
        assert(slash@ =~= root_comp());
        let usr = vec![slash, chars_of("usr"), chars_of("local"), chars_of("bin")];
        assert(views(usr@) =~= usr_local_bin());
        let local_bin = append_comps(&h, &lit_comps(".local", "bin"));
        let bin_only = vec![chars_of("bin")];
        assert(views(bin_only@) =~= seq!["bin"@]);
        let home_bin = append_comps(&h, &bin_only);
        if comps_eq(&parent, &usr) || comps_eq(&parent, &local_bin) || comps_eq(
            &parent,
            &home_bin,
        ) {
            return InstallMethod::Tarball { binary_path: owned(binary_path) };
        }
    } else {
        assert(c@.len() > 0 ==> c@[c.len() - 1]@ =~= root_comp());
    }
    InstallMethod::Unknown { binary_path: owned(binary_path) }
}

/// `Path` equality of `a` and `b` after canonicalization: the canonical forms
/// when both resolved, the literal paths otherwise.
pub open spec fn canon_equal(
    a: Seq<char>,
    b: Seq<char>,
    a_canon: Option<Seq<char>>,
    b_canon: Option<Seq<char>>,
) -> bool {
    match (a_canon, b_canon) {
        (Some(x), Some(y)) => components(x) == components(y),
        _ => components(a) == components(b),
    }
}

pub open spec fn opt_view(o: Option<&str>) -> Option<Seq<char>> {
    match o {
        Some(s) => Some(s@),
        None => None,
    }
}

/// Whether two paths name the same file: compare canonical forms when both
/// canonicalized (`a_canon`, `b_canon` are their `canonicalize()` results),
/// else fall back to literal path equality.
pub fn paths_canonicalize_equal(
    a: &str,
    b: &str,
    a_canon: Option<&str>,
    b_canon: Option<&str>,
) -> (r: bool)
    ensures
        r == canon_equal(a@, b@, opt_view(a_canon), opt_view(b_canon)),
{
    match (a_canon, b_canon) {
        (Some(x), Some(y)) => comps_eq(&components_of(x), &components_of(y)),
        _ => comps_eq(&components_of(a), &components_of(b)),
    }
}

/// Homebrew detection on top of the prefix classification: `Homebrew` only
/// when `brew list aoe` named a path that is the running binary.
pub fn classify_with_brew(
    prefix: InstallMethod,
    brew_path: Option<&str>,
    binary_path: &str,
    brew_canon: Option<&str>,
    binary_canon: Option<&str>,
) -> (r: InstallMethod)
    ensures
        match brew_path {
            Some(bp) => if canon_equal(bp@, binary_path@, opt_view(brew_canon), opt_view(binary_canon)) {
                r@ == MethodView::Homebrew
            } else {
                r == prefix
            },
            None => r == prefix,
        },
{
    if let Some(bp) = brew_path {
        if paths_canonicalize_equal(bp, binary_path, brew_canon, binary_canon) {
            return InstallMethod::Homebrew;
        }
    }
    prefix
}

/// The path `brew list aoe` reports for the binary: the first output line
/// that, trimmed, ends in `/aoe` (which covers `/bin/aoe`).
pub open spec fn brew_listed_path(lines: Seq<Seq<char>>) -> Option<Seq<char>>
    decreases lines.len(),
{
    if lines.len() == 0 {
        None
    } else if has_suffix(trim(lines[0]), "/aoe"@) || has_suffix(trim(lines[0]), "/bin/aoe"@) {
        Some(trim(lines[0]))
    } else {
        brew_listed_path(lines.drop_first())
    }
}

/// The lines of `stdout` as `str::lines` splits them.
pub(crate) fn lines_vec(v: &Vec<char>) -> (r: Vec<Vec<char>>)
    ensures
        views(r@) == lines_of(v@),
{
    let mut out: Vec<Vec<char>> = Vec::new();
    let mut start: usize = 0;
    let mut i: usize = 0;
    assert(v@.skip(0) =~= v@);
    while i < v.len()
        invariant
            start <= i <= v.len(),
            lines_of(v@) == views(out@) + lines_of(v@.skip(start as int)),
            forall|j: int| start <= j < i ==> v@[j] != '\n',
        decreases v.len() - i,
    {
        if v[i] == '\n' {
            let mut end = i;
            if end > start && v[end - 1] == '\r' {
                end = end - 1;
            }
            let piece = crate::text::slice_chars(v, start, end);
            proof {
                let rest = v@.skip(start as int);
                crate::text::lemma_find_char_at(rest, '\n', i - start);
                assert(rest.take(i - start) =~= v@.subrange(start as int, i as int));
                assert(rest.skip(i - start + 1) =~= v@.skip(i + 1));
                assert(strip_cr(v@.subrange(start as int, i as int)) =~= piece@);
                assert(rest.len() > 0);
            }
            proof {
                lemma_views_push(out@, piece);
            }
            out.push(piece);
            start = i + 1;
        }
        i = i + 1;
    }
    proof {
        let rest = v@.skip(start as int);
        lemma_split_last(rest, '\n');
        crate::text::lemma_find_char_none(rest, '\n');
    }
    if start < v.len() {
        let piece = crate::text::slice_chars(v, start, v.len());
        assert(piece@ =~= v@.skip(start as int));
        proof {
            lemma_views_push(out@, piece);
        }
        out.push(piece);
    } else {
        assert(v@.skip(start as int).len() == 0);
        assert(views(out@) + lines_of(v@.skip(start as int)) =~= views(out@));
    }
    out
}

/// The binary path named in the output of `brew list aoe`.
pub fn brew_aoe_path_from_listing(stdout: &str) -> (r: Option<String>)
    ensures
        match r {
            Some(p) => brew_listed_path(lines_of(stdout@)) == Some(p@),
            None => brew_listed_path(lines_of(stdout@)) is None,
        },
{
    let cs = chars_of(stdout);
    let lines = lines_vec(&cs);
    let ghost ls = lines_of(stdout@);
    let aoe = chars_of("/aoe");
    let bin_aoe = chars_of("/bin/aoe");
    let mut i: usize = 0;
    assert(ls.skip(0) =~= ls);
    while i < lines.len()
        invariant
            i <= lines.len(),
            views(lines@) == ls,
            ls == lines_of(stdout@),
            aoe@ == "/aoe"@,
            bin_aoe@ == "/bin/aoe"@,
            brew_listed_path(ls) == brew_listed_path(ls.skip(i as int)),
        decreases lines.len() - i,
    {
        let t = trim_chars(&lines[i]);
        assert(ls.skip(i as int)[0] == lines@[i as int]@);
        if ends_with_chars(&t, &aoe) || ends_with_chars(&t, &bin_aoe) {
            return Some(string_from(&t));
        }
        assert(ls.skip(i as int).drop_first() =~= ls.skip(i + 1));
        i = i + 1;
    }
    assert(ls.skip(i as int).len() == 0);
    None
}

// ---------------------------------------------------------------------------
// Platform and release assets
// ---------------------------------------------------------------------------
/// Why no release asset fits the platform.
#[derive(Debug, Clone, PartialEq, Eq)]
pub enum PlatformError {
    UnsupportedOs(String),
    UnsupportedArch(String),
}

impl PlatformError {
    /// The error's text: `unsupported OS: <os>` or `unsupported architecture: <arch>`.
    pub fn message(&self) -> (r: String)
        ensures
            r@ == match self {
                PlatformError::UnsupportedOs(os) => "unsupported OS: "@ + os@,
                PlatformError::UnsupportedArch(a) => "unsupported architecture: "@ + a@,
            },
    {
        match self {
            PlatformError::UnsupportedOs(os) => {
                let mut s = owned("unsupported OS: ");
                push_all(&mut s, os.as_str());
                s
            },
            PlatformError::UnsupportedArch(a) => {
                let mut s = owned("unsupported architecture: ");
                push_all(&mut s, a.as_str());
                s
            },
        }
    }
}

/// The asset platform string for an OS (`std::env::consts::OS`) and an
/// architecture (`std::env::consts::ARCH`), or why there is none; the OS is
/// checked first.
pub open spec fn platform_for(os: Seq<char>, arch: Seq<char>) -> Result<Seq<char>, (bool, Seq<char>)> {
    if os != "linux"@ && os != "macos"@ {
        Err((true, os))
    } else if arch != "x86_64"@ && arch != "aarch64"@ && arch != "arm64"@ {
        Err((false, arch))
    } else if os == "linux"@ {
        if arch == "x86_64"@ {
            Ok("linux-amd64"@)
        } else {
            Ok("linux-arm64"@)
        }
    } else if arch == "x86_64"@ {
        Ok("darwin-amd64"@)
    } else {
        Ok("darwin-arm64"@)
    }
}

/// The release-asset platform string (e.g. `linux-amd64`).
pub fn platform_string_for(os: &str, arch: &str) -> (r: Result<&'static str, PlatformError>)
    ensures
        match r {
            Ok(p) => platform_for(os@, arch@) == Ok::<Seq<char>, (bool, Seq<char>)>(p@),
            Err(PlatformError::UnsupportedOs(o)) => platform_for(os@, arch@) == Err::<
                Seq<char>,
                (bool, Seq<char>),
            >((true, o@)),
            Err(PlatformError::UnsupportedArch(a)) => platform_for(os@, arch@) == Err::<
                Seq<char>,
                (bool, Seq<char>),
            >((false, a@)),
        },
{
    let linux = str_eq(os, "linux");
    let macos = str_eq(os, "macos");
    if !linux && !macos {
        return Err(PlatformError::UnsupportedOs(owned(os)));
    }
    let amd = str_eq(arch, "x86_64");
    let arm = str_eq(arch, "aarch64") || str_eq(arch, "arm64");
    if !amd && !arm {
        return Err(PlatformError::UnsupportedArch(owned(arch)));
    }
    if linux {
        if amd {
            Ok("linux-amd64")
        } else {
            Ok("linux-arm64")
        }
    } else if amd {
        Ok("darwin-amd64")
    } else {
        Ok("darwin-arm64")
    }
}

/// The default download location of release assets.
pub fn default_release_base() -> (r: &'static str)
    ensures
        r@ == "https://github.com/agent-of-empires/agent-of-empires/releases/download"@,
{
    "https://github.com/agent-of-empires/agent-of-empires/releases/download"
}

/// The tarball URL of `version` for `platform` under the release base URL
/// (`AOE_UPDATE_BASE_URL` when set, [`default_release_base`] otherwise).
pub fn release_tarball_url(base: &str, version: &str, platform: &str) -> (r: String)
    ensures
        r@ == base@ + "/v"@ + version@ + "/aoe-"@ + platform@ + ".tar.gz"@,
{
    let mut s = owned(base);
    push_all(&mut s, "/v");
    push_all(&mut s, version);
    push_all(&mut s, "/aoe-");
    push_all(&mut s, platform);
    push_all(&mut s, ".tar.gz");
    s
}

/// The file name a release tarball extracts its binary to.
pub fn extracted_binary_name(platform: &str) -> (r: String)
    ensures
        r@ == "aoe-"@ + platform@,
{
    let mut s = owned("aoe-");
    push_all(&mut s, platform);
    s
}

/// The output of `<binary> --version` names `expected`: some whitespace
/// token equals it, with or without leading `v`s.
pub open spec fn reports_version(stdout: Seq<char>, expected: Seq<char>) -> bool {
    exists|i: int|
        0 <= i < ws_tokens(stdout).len() && token_reports(
            #[trigger] ws_tokens(stdout)[i],
            expected,
        )
}

/// One output token names the version, with or without leading `v`s.
pub open spec fn token_reports(t: Seq<char>, expected: Seq<char>) -> bool {
    t == expected || strip_v(t) == expected
}

/// Whether a candidate binary's `--version` output reports `expected`.
pub fn version_output_matches(stdout: &str, expected: &str) -> (r: bool)
    ensures
        r == reports_version(stdout@, expected@),
{
    let cs = chars_of(stdout);
    let toks = crate::text::ws_split(&cs);
    let ev = chars_of(expected);
    let ghost ts = ws_tokens(stdout@);
    let mut i: usize = 0;
    while i < toks.len()
        invariant
            i <= toks.len(),
            views(toks@) == ts,
            ts == ws_tokens(stdout@),
            ev@ == expected@,
            forall|j: int| 0 <= j < i ==> !token_reports(#[trigger] ts[j], expected@),
        decreases toks.len() - i,
    {
        let t = &toks[i];
        assert(t@ == ts[i as int]);
        let stripped = strip_leading_v(t);
        if seq_eq(t, &ev) || seq_eq(&stripped, &ev) {
            assert(token_reports(ts[i as int], expected@));
            return true;
        }
        i = i + 1;
    }
    false
}

fn strip_leading_v(t: &Vec<char>) -> (r: Vec<char>)
    ensures
        r@ == strip_v(t@),
{
    let mut i: usize = 0;
    assert(t@.skip(0) =~= t@);
    while i < t.len() && t[i] == 'v'
        invariant
            i <= t.len(),
            strip_v(t@) == strip_v(t@.skip(i as int)),
        decreases t.len() - i,
    {
        assert(t@.skip(i as int).drop_first() =~= t@.skip(i + 1));
        i = i + 1;
    }
    let r = crate::text::slice_chars(t, i, t.len());
    assert(r@ =~= t@.skip(i as int));
    r
}

// ---------------------------------------------------------------------------
// Messages
// ---------------------------------------------------------------------------
pub open spec fn lag_message(target: Seq<char>) -> Seq<char> {
    "v"@ + target
        + " isn't available on Homebrew yet. Please try again in a little while; the formula usually catches up within a few hours of a release."@
}

/// Explanation shown when the Homebrew formula lags the GitHub release.
pub fn brew_formula_lag_message(target_version: &str) -> (r: String)
    ensures
        r@ == lag_message(target_version@),
{
    let mut s = owned("v");
    push_all(&mut s, target_version);
    push_all(
        &mut s,
        " isn't available on Homebrew yet. Please try again in a little while; the formula usually catches up within a few hours of a release.",
    );
    s
}

/// How to update a Nix install.
pub fn nix_refusal_message() -> (r: String)
    ensures
        r@ == "BOA was installed via Nix. Update by running:\n\n    nix run github:agent-of-empires/agent-of-empires\n\n(or rebuild your flake input)."@,
{
    owned(
        "BOA was installed via Nix. Update by running:\n\n    nix run github:agent-of-empires/agent-of-empires\n\n(or rebuild your flake input).",
    )
}

/// How to update a cargo install.
pub fn cargo_refusal_message() -> (r: String)
    ensures
        r@ == "BOA was installed via cargo. Update by running:\n\n    cargo install --git https://github.com/agent-of-empires/agent-of-empires aoe\n\n(or `git pull && cargo install --path .` from a local clone)."@,
{
    owned(
        "BOA was installed via cargo. Update by running:\n\n    cargo install --git https://github.com/agent-of-empires/agent-of-empires aoe\n\n(or `git pull && cargo install --path .` from a local clone).",
    )
}

/// How to reinstall when the install method is unknown.
pub fn unknown_refusal_message(binary_path: &str) -> (r: String)
    ensures
        r@ == "Couldn't determine how BOA was installed at "@ + binary_path@
            + ".\nReinstall with:\n\n    curl -fsSL https://raw.githubusercontent.com/agent-of-empires/agent-of-empires/main/scripts/install.sh | bash\n"@,
{
    let mut s = owned("Couldn't determine how BOA was installed at ");
    push_all(&mut s, binary_path);
    push_all(
        &mut s,
        ".\nReinstall with:\n\n    curl -fsSL https://raw.githubusercontent.com/agent-of-empires/agent-of-empires/main/scripts/install.sh | bash\n",
    );
    s
}

/// Method label and location label of the confirmation prompt.
pub open spec fn method_labels(m: MethodView) -> (Seq<char>, Seq<char>) {
    match m {
        MethodView::Homebrew => ("homebrew"@, "managed by Homebrew"@),
        MethodView::Tarball(p) => ("tarball install"@, p),
        MethodView::Nix => ("nix"@, "/nix/store (read-only)"@),
        MethodView::Cargo => ("cargo"@, "~/.cargo/bin/aoe"@),
        MethodView::Unknown(p) => ("unknown"@, p),
    }
}

/// The confirmation prompt block, without a trailing newline.
pub open spec fn prompt_block(
    current: Seq<char>,
    latest: Seq<char>,
    m: MethodView,
    needs_sudo: bool,
) -> Seq<char> {
    let base = "Update v"@ + current + " → v"@ + latest + "\n"@ + "  Method:    "@
        + method_labels(m).0 + "\n"@ + "  Location:  "@ + method_labels(m).1;
    if needs_sudo {
        base + "\n  Sudo:      required (write-protected directory)"@
    } else {
        base
    }
}

/// Render the confirm-prompt block shown before an update.
pub fn format_prompt_block(
    current_version: &str,
    latest_version: &str,
    method: &InstallMethod,
    needs_sudo: bool,
) -> (r: String)
    ensures
        r@ == prompt_block(current_version@, latest_version@, method@, needs_sudo),
{
    let mut out = owned("Update v");
    push_all(&mut out, current_version);
    push_all(&mut out, " → v");
    push_all(&mut out, latest_version);
    push_all(&mut out, "\n");
    let (method_label, location_label): (&str, &str) = match method {
        InstallMethod::Homebrew => ("homebrew", "managed by Homebrew"),
        InstallMethod::Tarball { binary_path } => ("tarball install", binary_path.as_str()),
        InstallMethod::Nix => ("nix", "/nix/store (read-only)"),
        InstallMethod::Cargo => ("cargo", "~/.cargo/bin/aoe"),
        InstallMethod::Unknown { binary_path } => ("unknown", binary_path.as_str()),
    };
    push_all(&mut out, "  Method:    ");
    push_all(&mut out, method_label);
    push_all(&mut out, "\n");
    push_all(&mut out, "  Location:  ");
    push_all(&mut out, location_label);
    if needs_sudo {
        push_all(&mut out, "\n  Sudo:      required (write-protected directory)");
    }
    out
}

// ---------------------------------------------------------------------------
// Update dispatch
// ---------------------------------------------------------------------------
/// True if the running install can pull `target_version` now: false only for
/// a Homebrew install whose formula advertises a version older than the
/// target. `method` is `None` when detection failed; `brew_version` is what
/// `brew info` advertised, `None` when the probe failed.
pub fn install_method_supports_target(
    target_version: &str,
    method: Option<&InstallMethod>,
    brew_version: Option<&str>,
) -> (r: bool)
    ensures
        r == match (method, brew_version) {
            (Some(InstallMethod::Homebrew), Some(v)) => !newer(target_version@, v@),
            _ => true,
        },
{
    match method {
        Some(InstallMethod::Homebrew) => match brew_version {
            Some(v) => !is_newer_version(target_version, v),
            None => true,
        },
        _ => true,
    }
}

/// What performing an update does for an install method.
#[derive(Debug, Clone, PartialEq, Eq)]
pub enum UpdatePlan {
    /// Upgrade through Homebrew.
    Brew,
    /// Download the release tarball and replace the binary at this path.
    Tarball(String),
    /// Print this message: the method cannot self-update.
    Refuse(String),
}

/// The update route for an install method.
pub fn update_plan(method: &InstallMethod) -> (r: UpdatePlan)
    ensures
        match method@ {
            MethodView::Homebrew => r == UpdatePlan::Brew,
            MethodView::Tarball(p) => r matches UpdatePlan::Tarball(q) && q@ == p,
            MethodView::Nix => r matches UpdatePlan::Refuse(m) && m@
                == "BOA was installed via Nix. Update by running:\n\n    nix run github:agent-of-empires/agent-of-empires\n\n(or rebuild your flake input)."@,
            MethodView::Cargo => r matches UpdatePlan::Refuse(m) && m@
                == "BOA was installed via cargo. Update by running:\n\n    cargo install --git https://github.com/agent-of-empires/agent-of-empires aoe\n\n(or `git pull && cargo install --path .` from a local clone)."@,
            MethodView::Unknown(p) => r matches UpdatePlan::Refuse(m) && m@
                == "Couldn't determine how BOA was installed at "@ + p
                + ".\nReinstall with:\n\n    curl -fsSL https://raw.githubusercontent.com/agent-of-empires/agent-of-empires/main/scripts/install.sh | bash\n"@,
        },
{
    match method {
        InstallMethod::Homebrew => UpdatePlan::Brew,
        InstallMethod::Tarball { binary_path } => UpdatePlan::Tarball(owned(binary_path.as_str())),
        InstallMethod::Nix => UpdatePlan::Refuse(nix_refusal_message()),
        InstallMethod::Cargo => UpdatePlan::Refuse(cargo_refusal_message()),
        InstallMethod::Unknown { binary_path } => UpdatePlan::Refuse(
            unknown_refusal_message(binary_path.as_str()),
        ),
    }
}

/// Where a Homebrew update stands.
#[derive(Debug, Clone, Copy, PartialEq, Eq, Structural)]
pub enum BrewStage {
    /// Nothing has run yet.
    Start,
    /// `brew update` is running.
    Updating,
    /// `brew info aoe --json=v2` is running.
    Probing,
    /// `brew upgrade aoe` is running.
    Upgrading,
    /// The update finished, successfully or not.
    Finished,
}

/// What the driver reports back to the Homebrew update.
pub enum BrewEvent {
    /// Start the update.
    Begin,
    /// The running command could not be started; the text says which.
    SpawnFailed,
    /// The running command exited; `status` is its exit status as text.
    Exited { success: bool, status: String },
    /// `brew info` finished; the stable version it advertises, if any.
    Advertised(Option<String>),
}

/// What the driver does next.
#[derive(Debug, Clone, PartialEq, Eq)]
pub enum BrewAction {
    RunUpdate,
    QueryInfo,
    RunUpgrade,
    Succeed,
    Fail(String),
}

/// The action fails the update with exactly this message.
pub open spec fn fails_with(a: BrewAction, msg: Seq<char>) -> bool {
    a matches BrewAction::Fail(m) && m@ == msg
}

/// One decision of the Homebrew update (`brew update`, then the formula-lag
/// check, then `brew upgrade aoe`): the next stage and what to do. An event
/// that does not fit the stage fails the update.
pub fn brew_update_step(stage: BrewStage, target_version: &str, event: BrewEvent) -> (r: (
    BrewStage,
    BrewAction,
))
    ensures
        match (stage, event) {
            (BrewStage::Start, BrewEvent::Begin) => r == (BrewStage::Updating, BrewAction::RunUpdate),
            (BrewStage::Updating, BrewEvent::Exited { success, status }) => if success {
                r == (BrewStage::Probing, BrewAction::QueryInfo)
            } else {
                r.0 == BrewStage::Finished && fails_with(r.1, "`brew update` failed (exit "@ + status@ + ")"@)
            },
            (BrewStage::Updating, BrewEvent::SpawnFailed) => r.0 == BrewStage::Finished
                && fails_with(r.1, "running `brew update`"@),
            (BrewStage::Probing, BrewEvent::Advertised(v)) => match v {
                Some(bv) => if newer(target_version@, bv@) {
                    r.0 == BrewStage::Finished && fails_with(r.1, lag_message(target_version@))
                } else {
                    r == (BrewStage::Upgrading, BrewAction::RunUpgrade)
                },
                None => r == (BrewStage::Upgrading, BrewAction::RunUpgrade),
            },
            (BrewStage::Upgrading, BrewEvent::Exited { success, status }) => if success {
                r == (BrewStage::Finished, BrewAction::Succeed)
            } else {
                r.0 == BrewStage::Finished && fails_with(r.1, "`brew upgrade aoe` failed (exit "@ + status@ + ")"@)
            },
            (BrewStage::Upgrading, BrewEvent::SpawnFailed) => r.0 == BrewStage::Finished
                && fails_with(r.1, "running `brew upgrade aoe`"@),
            _ => r.0 == BrewStage::Finished && fails_with(r.1, "unexpected homebrew event"@),
        },
{
    match (stage, event) {
        (BrewStage::Start, BrewEvent::Begin) => (BrewStage::Updating, BrewAction::RunUpdate),
        (BrewStage::Updating, BrewEvent::Exited { success, status }) => {
            if success {
                (BrewStage::Probing, BrewAction::QueryInfo)
            } else {
                let mut m = owned("`brew update` failed (exit ");
                push_all(&mut m, status.as_str());
                push_all(&mut m, ")");
                (BrewStage::Finished, BrewAction::Fail(m))
            }
        },
        (BrewStage::Updating, BrewEvent::SpawnFailed) => (
            BrewStage::Finished,
            BrewAction::Fail(owned("running `brew update`")),
        ),
        (BrewStage::Probing, BrewEvent::Advertised(v)) => {
            match v {
                Some(bv) => {
                    if is_newer_version(target_version, bv.as_str()) {
                        (
                            BrewStage::Finished,
                            BrewAction::Fail(brew_formula_lag_message(target_version)),
                        )
                    } else {
                        (BrewStage::Upgrading, BrewAction::RunUpgrade)
                    }
                },
                None => (BrewStage::Upgrading, BrewAction::RunUpgrade),
            }
        },
        (BrewStage::Upgrading, BrewEvent::Exited { success, status }) => {
            if success {
                (BrewStage::Finished, BrewAction::Succeed)
            } else {
                let mut m = owned("`brew upgrade aoe` failed (exit ");
                push_all(&mut m, status.as_str());
                push_all(&mut m, ")");
                (BrewStage::Finished, BrewAction::Fail(m))
            }
        },
        (BrewStage::Upgrading, BrewEvent::SpawnFailed) => (
            BrewStage::Finished,
            BrewAction::Fail(owned("running `brew upgrade aoe`")),
        ),
        _ => (BrewStage::Finished, BrewAction::Fail(owned("unexpected homebrew event"))),
    }
}

} // verus!
