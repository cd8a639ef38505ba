//! Render the whole capability/gap matrix as Markdown.
use vstd::prelude::*;
use crate::matrix::{Capability, Matrix, ParityTier, Severity, Source, TauriPath, tier_of};
use crate::text::{dec, push_dec, push_str};

verus! {

/// The path cell of a matrix row.
pub open spec fn path_label_spec(c: Capability) -> Seq<char> {
    match c.tauri_path {
        TauriPath::Native => "native"@,
        TauriPath::Plugin => "plugin: "@ + match c.plugin {
            Some(p) => p@,
            None => "?"@,
        },
        TauriPath::CustomRust => "custom Rust command"@,
        TauriPath::Sidecar => "sidecar process"@,
        TauriPath::NoViablePath => "**no viable path**"@,
        TauriPath::OpenQuestion => "**OPEN QUESTION**"@,
    }
}

/// The short name of a path used in the rollup.
pub open spec fn path_key_spec(p: TauriPath) -> Seq<char> {
    match p {
        TauriPath::Native => "native"@,
        TauriPath::Plugin => "plugin"@,
        TauriPath::CustomRust => "custom Rust"@,
        TauriPath::Sidecar => "sidecar"@,
        TauriPath::NoViablePath => "no viable path"@,
        TauriPath::OpenQuestion => "OPEN QUESTION"@,
    }
}

/// How `{:?}` spells a severity.
pub open spec fn severity_debug(s: Severity) -> Seq<char> {
    match s {
        Severity::Full => "Full"@,
        Severity::Partial => "Partial"@,
        Severity::NoParity => "None"@,
    }
}

/// How `{:?}` spells a parity tier.
pub open spec fn tier_debug(t: ParityTier) -> Seq<char> {
    match t {
        ParityTier::Behavioral => "Behavioral"@,
        ParityTier::Visual => "Visual"@,
    }
}

/// How `{:?}` spells a Tauri path.
pub open spec fn path_debug(p: TauriPath) -> Seq<char> {
    match p {
        TauriPath::Native => "Native"@,
        TauriPath::Plugin => "Plugin"@,
        TauriPath::CustomRust => "CustomRust"@,
        TauriPath::Sidecar => "Sidecar"@,
        TauriPath::NoViablePath => "None"@,
        TauriPath::OpenQuestion => "OpenQuestion"@,
    }
}

fn path_label(c: &Capability) -> (r: String)
    ensures
        r@ == path_label_spec(*c),
{
    match c.tauri_path {
        TauriPath::Native => "native".to_string(),
        TauriPath::Plugin => {
            let mut s = "plugin: ".to_string();
            match &c.plugin {
                Some(p) => push_str(&mut s, p.as_str()),
                None => push_str(&mut s, "?"),
            }
            s
        },
        TauriPath::CustomRust => "custom Rust command".to_string(),
        TauriPath::Sidecar => "sidecar process".to_string(),
        TauriPath::NoViablePath => "**no viable path**".to_string(),
        TauriPath::OpenQuestion => "**OPEN QUESTION**".to_string(),
    }
}

fn path_key(p: TauriPath) -> (r: &'static str)
    ensures
        r@ == path_key_spec(p),
{
    match p {
        TauriPath::Native => "native",
        TauriPath::Plugin => "plugin",
        TauriPath::CustomRust => "custom Rust",
        TauriPath::Sidecar => "sidecar",
        TauriPath::NoViablePath => "no viable path",
        TauriPath::OpenQuestion => "OPEN QUESTION",
    }
}

pub fn severity_name(s: Severity) -> (r: &'static str)
    ensures
        r@ == severity_debug(s),
{
    match s {
        Severity::Full => "Full",
        Severity::Partial => "Partial",
        Severity::NoParity => "None",
    }
}

pub fn tier_name(t: ParityTier) -> (r: &'static str)
    ensures
        r@ == tier_debug(t),
{
    match t {
        ParityTier::Behavioral => "Behavioral",
        ParityTier::Visual => "Visual",
    }
}

pub fn path_name(p: TauriPath) -> (r: &'static str)
    ensures
        r@ == path_debug(p),
{
    match p {
        TauriPath::Native => "Native",
        TauriPath::Plugin => "Plugin",
        TauriPath::CustomRust => "CustomRust",
        TauriPath::Sidecar => "Sidecar",
        TauriPath::NoViablePath => "None",
        TauriPath::OpenQuestion => "OpenQuestion",
    }
}

/// One table row of a section.
pub open spec fn table_row(c: Capability) -> Seq<char> {
    "| "@ + c.name@ + " | "@ + path_label_spec(c) + " | "@ + severity_debug(c.severity) + " | "@
        + tier_debug(tier_of(c)) + " | [doc]("@ + c.citation_url@ + ") |\n"@
}

/// The table rows of every row from `src`, in matrix order.
pub open spec fn table_rows(caps: Seq<Capability>, src: Source) -> Seq<char>
    decreases caps.len(),
{
    if caps.len() == 0 {
        seq![]
    } else {
        table_rows(caps.drop_last(), src) + if caps.last().source == src {
            table_row(caps.last())
        } else {
            Seq::<char>::empty()
        }
    }
}

/// A titled section listing the rows from one source.
pub open spec fn section_text(title: Seq<char>, src: Source, caps: Seq<Capability>) -> Seq<char> {
    "## "@ + title + "\n\n"@ + "| Capability | Tauri path | Severity | Tier | Source |\n"@
        + "|---|---|---|---|---|\n"@ + table_rows(caps, src) + "\n"@
}

fn section(out: &mut String, title: &str, src: Source, m: &Matrix)
    ensures
        final(out)@ == old(out)@ + section_text(title@, src, m.capabilities@),
{
    push_str(out, "## ");
    push_str(out, title);
    push_str(out, "\n\n");
    push_str(out, "| Capability | Tauri path | Severity | Tier | Source |\n");
    push_str(out, "|---|---|---|---|---|\n");
    let ghost head = out@;
    let ghost caps = m.capabilities@;
    let mut i: usize = 0;
    while i < m.capabilities.len()
        invariant
            caps == m.capabilities@,
            i <= caps.len(),
            out@ == head + table_rows(caps.take(i as int), src),
        decreases caps.len() - i,
    {
        let c = &m.capabilities[i];
        let ghost before = out@;
        if c.source == src {
            push_str(out, "| ");
            push_str(out, c.name.as_str());
            push_str(out, " | ");
            let label = path_label(c);
            push_str(out, label.as_str());
            push_str(out, " | ");
            push_str(out, severity_name(c.severity));
            push_str(out, " | ");
            push_str(out, tier_name(c.parity_tier()));
            push_str(out, " | [doc](");
            push_str(out, c.citation_url.as_str());
            push_str(out, ") |\n");
            assert(out@ =~= before + table_row(*c));
        }
        assert(caps.take(i + 1).drop_last() =~= caps.take(i as int));
        assert(caps.take(i + 1).last() == *c);
        assert(out@ =~= head + table_rows(caps.take(i + 1), src));
        i = i + 1;
    }
    assert(caps.take(caps.len() as int) =~= caps);
    push_str(out, "\n");
    assert(out@ =~= old(out)@ + section_text(title@, src, m.capabilities@));
}

/// The rollup order of paths.
pub open spec fn path_order() -> Seq<TauriPath> {
    seq![
        TauriPath::Native,
        TauriPath::Plugin,
        TauriPath::CustomRust,
        TauriPath::Sidecar,
        TauriPath::NoViablePath,
        TauriPath::OpenQuestion,
    ]
}

/// How many of `caps` take path `p`.
pub open spec fn count_path(caps: Seq<Capability>, p: TauriPath) -> nat
    decreases caps.len(),
{
    if caps.len() == 0 {
        0
    } else {
        count_path(caps.drop_last(), p) + if caps.last().tauri_path == p { 1nat } else { 0nat }
    }
}

/// The "`n` key" rollup parts for the first `k` paths in rollup order, skipping zero counts.
pub open spec fn rollup_parts(caps: Seq<Capability>, k: nat) -> Seq<Seq<char>>
    decreases k,
{
    if k == 0 {
        seq![]
    } else {
        let prev = rollup_parts(caps, (k - 1) as nat);
        let p = path_order()[k - 1];
        let n = count_path(caps, p);
        if n > 0 {
            prev.push(dec(n) + " "@ + path_key_spec(p))
        } else {
            prev
        }
    }
}

/// `parts` joined by `sep`.
pub open spec fn join(parts: Seq<Seq<char>>, sep: Seq<char>) -> Seq<char>
    decreases parts.len(),
{
    if parts.len() == 0 {
        seq![]
    } else if parts.len() == 1 {
        parts[0]
    } else {
        join(parts.drop_last(), sep) + sep + parts.last()
    }
}

pub open spec fn legend() -> Seq<char> {
    "\n\n_Legend: **no viable path** = cannot be replicated; **OPEN QUESTION** = unconfirmed, needs research; plugin/native/custom Rust/sidecar = a path exists._\n\n"@
}

/// The summary paragraph: how many rows, and how many fall under each path.
pub open spec fn summary_text(caps: Seq<Capability>) -> Seq<char> {
    "**"@ + dec(caps.len()) + " capabilities.** Path rollup: "@ + join(rollup_parts(caps, 6), ", "@)
        + legend()
}

fn count_with_path(caps: &Vec<&Capability>, p: TauriPath) -> (n: usize)
    ensures
        n == count_path(caps@.map_values(|c: &Capability| *c), p),
{
    let ghost cs = caps@.map_values(|c: &Capability| *c);
    let mut n: usize = 0;
    let mut i: usize = 0;
    while i < caps.len()
        invariant
            cs == caps@.map_values(|c: &Capability| *c),
            i <= caps@.len(),
            n == count_path(cs.take(i as int), p),
            n <= i,
        decreases caps@.len() - i,
    {
        assert(cs.take(i + 1).drop_last() =~= cs.take(i as int));
        if caps[i].tauri_path == p {
            n = n + 1;
        }
        i = i + 1;
    }
    assert(cs.take(caps@.len() as int) =~= cs);
    n
}

/// Roll up how many capabilities fall under each Tauri path, in a stable order.
fn summary(out: &mut String, caps: &Vec<&Capability>)
    ensures
        final(out)@ == old(out)@ + summary_text(caps@.map_values(|c: &Capability| *c)),
{
    let ghost cs = caps@.map_values(|c: &Capability| *c);
    let order: [TauriPath; 6] = [
        TauriPath::Native,
        TauriPath::Plugin,
        TauriPath::CustomRust,
        TauriPath::Sidecar,
        TauriPath::NoViablePath,
        TauriPath::OpenQuestion,
    ];
    assert(order@ =~= path_order());
    push_str(out, "**");
    push_dec(out, caps.len() as u64);
    push_str(out, " capabilities.** Path rollup: ");
    let ghost head = out@;
    let mut joined = String::new();
    let mut count_parts: usize = 0;
    let mut k: usize = 0;
    while k < 6
        invariant
            cs == caps@.map_values(|c: &Capability| *c),
            order@ == path_order(),
            k <= 6,
            count_parts <= k,
            count_parts == rollup_parts(cs, k as nat).len(),
            joined@ == join(rollup_parts(cs, k as nat), ", "@),
        decreases 6 - k,
    {
        let p = order[k];
        let n = count_with_path(caps, p);
        if n > 0 {
            let ghost before = joined@;
            if count_parts > 0 {
                push_str(&mut joined, ", ");
            }
            push_dec(&mut joined, n as u64);
            push_str(&mut joined, " ");
            push_str(&mut joined, path_key(p));
            count_parts = count_parts + 1;
            proof {
                let parts = rollup_parts(cs, (k + 1) as nat);
                assert(parts == rollup_parts(cs, k as nat).push(dec(n as nat) + " "@ + path_key_spec(p)));
                assert(parts.drop_last() == rollup_parts(cs, k as nat));
                if count_parts == 1 {
                    assert(joined@ =~= join(parts, ", "@));
                } else {
                    assert(joined@ =~= join(parts, ", "@));
                }
            }
        }
        k = k + 1;
    }
    push_str(out, joined.as_str());
    push_str(
        out,
        "\n\n_Legend: **no viable path** = cannot be replicated; **OPEN QUESTION** = unconfirmed, needs research; plugin/native/custom Rust/sidecar = a path exists._\n\n",
    );
    assert(out@ =~= old(out)@ + summary_text(cs));
}

/// The rows of `caps` that `only` selects (all of them when `only` is `None`).
pub open spec fn selected(caps: Seq<Capability>, only: Option<Source>) -> Seq<Capability>
    decreases caps.len(),
{
    if caps.len() == 0 {
        seq![]
    } else {
        let prev = selected(caps.drop_last(), only);
        match only {
            Some(s) => if caps.last().source == s { prev.push(caps.last()) } else { prev },
            None => prev.push(caps.last()),
        }
    }
}

pub open spec fn report_title() -> Seq<char> {
    "# UWP/Electron \u{2192} Tauri v2 Capability & Gap Matrix\n\n"@
}

/// The whole Markdown report for rows `caps`, restricted to `only` when set.
pub open spec fn report_text(caps: Seq<Capability>, only: Option<Source>) -> Seq<char> {
    report_title() + summary_text(selected(caps, only)) + (if only != Some(Source::Electron) {
        section_text("UWP / WinRT"@, Source::Uwp, caps)
    } else {
        Seq::<char>::empty()
    }) + (if only != Some(Source::Uwp) {
        section_text("Electron"@, Source::Electron, caps)
    } else {
        Seq::<char>::empty()
    })
}

/// Render the capability/gap matrix as Markdown. `only` restricts to one source.
pub fn render_report(m: &Matrix, only: Option<Source>) -> (out: String)
    ensures
        out@ == report_text(m.capabilities@, only),
{
    let mut out = String::new();
    push_str(&mut out, "# UWP/Electron \u{2192} Tauri v2 Capability & Gap Matrix\n\n");
    let ghost caps = m.capabilities@;
    let mut sel: Vec<&Capability> = Vec::new();
    let mut i: usize = 0;
    while i < m.capabilities.len()
        invariant
            caps == m.capabilities@,
            i <= caps.len(),
            sel@.map_values(|c: &Capability| *c) == selected(caps.take(i as int), only),
        decreases caps.len() - i,
    {
        let c = &m.capabilities[i];
        assert(caps.take(i + 1).drop_last() =~= caps.take(i as int));
        let keep = match only {
            Some(s) => c.source == s,
            None => true,
        };
        let ghost before = sel@.map_values(|c: &Capability| *c);
        if keep {
            sel.push(c);
            assert(sel@.map_values(|c: &Capability| *c) =~= before.push(*c));
        }
        i = i + 1;
    }
    assert(caps.take(caps.len() as int) =~= caps);
    summary(&mut out, &sel);
    if only != Some(Source::Electron) {
        section(&mut out, "UWP / WinRT", Source::Uwp, m);
    }
    if only != Some(Source::Uwp) {
        section(&mut out, "Electron", Source::Electron, m);
    }
    out
}

} // verus!
