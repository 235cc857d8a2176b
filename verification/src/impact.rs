//! Impact reports: the files a change touches, directly and through
//! concept rules, and how far it reaches.
use vstd::prelude::*;
use vstd::string::*;
use crate::fix::patcher::PKG_VERSION;
use crate::model::Severity;
use crate::style::{bold, bold_s, fg_s, red, yellow};
use crate::text::{decimal_s, join_s, push_decimal, push_str};

verus! {

/// A file affected by a configuration change.
#[derive(Debug, Clone)]
pub struct ImpactedFile {
    /// The file, as path text.
    pub path: String,
    pub concept_ids: Vec<String>,
    pub reason: String,
}

/// Blast radius summary for a set of changes.
#[derive(Debug, Clone)]
pub struct BlastRadius {
    pub files_affected: usize,
    pub concepts_affected: usize,
    pub worst_severity: Option<Severity>,
}

/// The complete impact analysis report.
#[derive(Debug, Clone)]
pub struct ImpactReport {
    /// Files that were directly changed.
    pub root_changes: Vec<ImpactedFile>,
    /// Files that share concepts with root changes (peer files).
    pub direct_impacts: Vec<ImpactedFile>,
    /// Files affected transitively via concept_rule dependencies.
    pub transitive_impacts: Vec<ImpactedFile>,
    /// All concepts affected (direct + transitive).
    pub affected_concepts: Vec<String>,
    /// Summary of the blast radius.
    pub blast_radius: BlastRadius,
}

pub open spec fn strings_of(v: Seq<String>) -> Seq<Seq<char>> {
    v.map_values(|s: String| s@)
}

/// The lines of the changed files: each path with its concepts.
pub open spec fn root_lines_s(fs: Seq<ImpactedFile>) -> Seq<char>
    decreases fs.len(),
{
    if fs.len() == 0 {
        Seq::empty()
    } else {
        let f = fs.last();
        root_lines_s(fs.drop_last()) + "  "@ + f.path@ + " ["@ + join_s(strings_of(f.concept_ids@), ", "@)
            + "]\n"@
    }
}

/// The lines of impacted files: each path with the reason.
pub open spec fn reason_lines_s(fs: Seq<ImpactedFile>) -> Seq<char>
    decreases fs.len(),
{
    if fs.len() == 0 {
        Seq::empty()
    } else {
        let f = fs.last();
        reason_lines_s(fs.drop_last()) + "  "@ + f.path@ + " - "@ + f.reason@ + "\n"@
    }
}

/// The section of the changed files, when there are any.
pub open spec fn root_section_s(fs: Seq<ImpactedFile>, no_color: bool) -> Seq<char> {
    if fs.len() == 0 {
        Seq::empty()
    } else {
        (if no_color {
            "Root changes:"@
        } else {
            bold_s("Root changes:"@)
        }) + "\n"@ + root_lines_s(fs) + "\n"@
    }
}

/// A section of impacted files under a colored title, when there are any.
pub open spec fn impact_section_s(title: Seq<char>, code: Seq<char>, fs: Seq<ImpactedFile>, no_color: bool) -> Seq<char> {
    if fs.len() == 0 {
        Seq::empty()
    } else {
        let t = title + " ("@ + decimal_s(fs.len()) + " file(s)):"@;
        (if no_color {
            t
        } else {
            fg_s(code, t)
        }) + "\n"@ + reason_lines_s(fs) + "\n"@
    }
}

/// The label of the worst severity.
pub open spec fn worst_label_s(s: Option<Severity>) -> Seq<char> {
    match s {
        Some(v) => v.label(),
        None => "NONE"@,
    }
}

/// The text of the terminal impact report.
pub open spec fn impact_report_s(r: ImpactReport, no_color: bool) -> Seq<char> {
    let b = r.blast_radius;
    "conflic v"@ + PKG_VERSION@ + " - impact analysis\n\n"@ + root_section_s(r.root_changes@, no_color)
        + impact_section_s("Direct impacts"@, "33"@, r.direct_impacts@, no_color) + impact_section_s(
        "Transitive impacts"@,
        "31"@,
        r.transitive_impacts@,
        no_color,
    ) + (if no_color {
        "Blast radius"@
    } else {
        bold_s("Blast radius"@)
    }) + ": "@ + decimal_s(b.files_affected as nat) + " file(s), "@ + decimal_s(
        b.concepts_affected as nat,
    ) + " concept(s), worst severity: "@ + worst_label_s(b.worst_severity) + "\n"@
}

fn push_joined(out: &mut String, parts: &Vec<String>, sep: &str)
    ensures
        final(out)@ == old(out)@ + join_s(strings_of(parts@), sep@),
{
    let ghost start = out@;
    let mut i: usize = 0;
    while i < parts.len()
        invariant
            i <= parts.len(),
            out@ == start + join_s(strings_of(parts@).take(i as int), sep@),
        decreases parts.len() - i,
    {
        proof {
            crate::text::lemma_join_push(strings_of(parts@).take(i as int), sep@, parts@[i as int]@);
            assert(strings_of(parts@).take(i as int).push(parts@[i as int]@) == strings_of(parts@).take(i + 1));
        }
        if i > 0 {
            push_str(out, sep);
        }
        push_str(out, parts[i].as_str());
        i = i + 1;
    }
    assert(strings_of(parts@).take(parts.len() as int) == strings_of(parts@));
}

fn push_root_section(out: &mut String, fs: &Vec<ImpactedFile>, no_color: bool)
    ensures
        final(out)@ == old(out)@ + root_section_s(fs@, no_color),
{
    if fs.len() == 0 {
        assert(old(out)@ + root_section_s(fs@, no_color) =~= old(out)@);
        return;
    }
    let ghost start = out@;
    if no_color {
        push_str(out, "Root changes:");
    } else {
        let b = bold("Root changes:");
        push_str(out, b.as_str());
    }
    push_str(out, "\n");
    let ghost head = out@;
    let mut k: usize = 0;
    while k < fs.len()
        invariant
            k <= fs.len(),
            out@ == head + root_lines_s(fs@.take(k as int)),
        decreases fs.len() - k,
    {
        let f = &fs[k];
        proof {
            assert(fs@.take(k + 1).drop_last() == fs@.take(k as int));
            assert(fs@.take(k + 1).last() == fs@[k as int]);
        }
        push_str(out, "  ");
        push_str(out, f.path.as_str());
        push_str(out, " [");
        push_joined(out, &f.concept_ids, ", ");
        push_str(out, "]\n");
        k = k + 1;
    }
    assert(fs@.take(fs.len() as int) == fs@);
    push_str(out, "\n");
    assert(out@ =~= start + root_section_s(fs@, no_color));
}

fn push_impact_section(out: &mut String, title: &str, yellow_title: bool, fs: &Vec<ImpactedFile>, no_color: bool)
    ensures
        final(out)@ == old(out)@ + impact_section_s(
            title@,
            if yellow_title {
                "33"@
            } else {
                "31"@
            },
            fs@,
            no_color,
        ),
{
    if fs.len() == 0 {
        assert(old(out)@ + impact_section_s(
            title@,
            if yellow_title {
                "33"@
            } else {
                "31"@
            },
            fs@,
            no_color,
        ) =~= old(out)@);
        return;
    }
    let ghost start = out@;
    let mut t = String::from_str(title);
    push_str(&mut t, " (");
    push_decimal(&mut t, fs.len() as u64);
    push_str(&mut t, " file(s)):");
    if no_color {
        push_str(out, t.as_str());
    } else if yellow_title {
        let c = yellow(t.as_str());
        push_str(out, c.as_str());
    } else {
        let c = red(t.as_str());
        push_str(out, c.as_str());
    }
    push_str(out, "\n");
    let ghost head = out@;
    let mut k: usize = 0;
    while k < fs.len()
        invariant
            k <= fs.len(),
            out@ == head + reason_lines_s(fs@.take(k as int)),
        decreases fs.len() - k,
    {
        let f = &fs[k];
        proof {
            assert(fs@.take(k + 1).drop_last() == fs@.take(k as int));
            assert(fs@.take(k + 1).last() == fs@[k as int]);
        }
        push_str(out, "  ");
        push_str(out, f.path.as_str());
        push_str(out, " - ");
        push_str(out, f.reason.as_str());
        push_str(out, "\n");
        k = k + 1;
    }
    assert(fs@.take(fs.len() as int) == fs@);
    push_str(out, "\n");
    assert(out@ =~= start + impact_section_s(
        title@,
        if yellow_title {
            "33"@
        } else {
            "31"@
        },
        fs@,
        no_color,
    ));
}

/// Render an impact report as terminal output: the changed files, the
/// files impacted directly and transitively, and the blast radius.
pub fn render_impact_report(report: &ImpactReport, no_color: bool) -> (r: String)
    ensures
        r@ == impact_report_s(*report, no_color),
{
    let mut out = String::new();
    push_str(&mut out, "conflic v");
    push_str(&mut out, PKG_VERSION);
    push_str(&mut out, " - impact analysis\n\n");
    push_root_section(&mut out, &report.root_changes, no_color);
    push_impact_section(&mut out, "Direct impacts", true, &report.direct_impacts, no_color);
    push_impact_section(&mut out, "Transitive impacts", false, &report.transitive_impacts, no_color);
    let severity = match report.blast_radius.worst_severity {
        Some(Severity::Error) => "ERROR",
        Some(Severity::Warning) => "WARNING",
        Some(Severity::Info) => "INFO",
        None => "NONE",
    };
    if no_color {
        push_str(&mut out, "Blast radius");
    } else {
        let b = bold("Blast radius");
        push_str(&mut out, b.as_str());
    }
    push_str(&mut out, ": ");
    push_decimal(&mut out, report.blast_radius.files_affected as u64);
    push_str(&mut out, " file(s), ");
    push_decimal(&mut out, report.blast_radius.concepts_affected as u64);
    push_str(&mut out, " concept(s), worst severity: ");
    push_str(&mut out, severity);
    push_str(&mut out, "\n");
    proof {
        reveal_strlit("ERROR");
        reveal_strlit("WARNING");
        reveal_strlit("INFO");
        reveal_strlit("NONE");
    }
    assert(out@ =~= impact_report_s(*report, no_color));
    out
}

} // verus!
