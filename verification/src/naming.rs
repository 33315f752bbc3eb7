//! Checks of naming rules before a plan is made: template syntax, known fields, and the
//! components that may not be left blank.

use vstd::prelude::*;
use crate::domain::NamingRules;
use crate::template::token_name;
use crate::text::{chars_equal_str, chars_of, find_from, lemma_first_pos, sub_chars};

verus! {

/// One problem found in the naming rules: which template, and a stable code
/// (`template_syntax`, `unknown_field` or `empty_component`).
#[derive(Debug, Clone)]
pub struct NamingIssue {
    pub template: String,
    pub code: String,
}

/// The fields that templates may name.
pub open spec fn known_field(name: Seq<char>) -> bool {
    ||| name == "artist"@
    ||| name == "album_artist"@
    ||| name == "album"@
    ||| name == "title"@
    ||| name == "track_no"@
    ||| name == "disc_no"@
    ||| name == "year"@
    ||| name == "extension"@
    ||| name == "source_stem"@
}

/// Where a scan of a template stands: inside a token (with its text so far), inside a
/// block, and the first problem met.
pub ghost struct TemplateScan {
    pub token: Option<Seq<char>>,
    pub in_block: bool,
    pub issue: Option<Seq<char>>,
}

/// One character further: `{` opens a token and `}` closes it (its field must be known);
/// `[` opens a block and `]` closes it. A brace inside a token, a stray closing brace or
/// bracket, and a block inside a block are syntax errors.
pub open spec fn scan_step(st: TemplateScan, c: char) -> TemplateScan {
    if st.issue is Some {
        st
    } else {
        match st.token {
            Some(tok) => if c == '}' {
                if known_field(token_name(tok)) {
                    TemplateScan { token: None, in_block: st.in_block, issue: None }
                } else {
                    TemplateScan { token: None, in_block: st.in_block, issue: Some("unknown_field"@) }
                }
            } else if c == '{' {
                TemplateScan { token: None, in_block: st.in_block, issue: Some("template_syntax"@) }
            } else {
                TemplateScan { token: Some(tok.push(c)), in_block: st.in_block, issue: None }
            },
            None => if c == '{' {
                TemplateScan { token: Some(Seq::<char>::empty()), in_block: st.in_block, issue: None }
            } else if c == '}' {
                TemplateScan { token: None, in_block: st.in_block, issue: Some("template_syntax"@) }
            } else if c == '[' {
                if st.in_block {
                    TemplateScan { token: None, in_block: true, issue: Some("template_syntax"@) }
                } else {
                    TemplateScan { token: None, in_block: true, issue: None }
                }
            } else if c == ']' {
                if st.in_block {
                    TemplateScan { token: None, in_block: false, issue: None }
                } else {
                    TemplateScan { token: None, in_block: false, issue: Some("template_syntax"@) }
                }
            } else {
                st
            },
        }
    }
}

/// The scan of a whole template.
pub open spec fn scan_template(t: Seq<char>) -> TemplateScan
    decreases t.len(),
{
    if t.len() == 0 {
        TemplateScan { token: None, in_block: false, issue: None }
    } else {
        scan_step(scan_template(t.drop_last()), t.last())
    }
}

/// The first problem of a template: one met while scanning, or a token or block left open.
pub open spec fn template_issue(t: Seq<char>) -> Option<Seq<char>> {
    let st = scan_template(t);
    if st.issue is Some {
        st.issue
    } else if st.token is Some || st.in_block {
        Some("template_syntax"@)
    } else {
        None
    }
}

/// A template with nothing but spaces.
pub open spec fn blank(t: Seq<char>) -> bool {
    forall|i: int| 0 <= i < t.len() ==> t[i] == ' '
}

/// The problem of one template, if any: a required template that is blank yields
/// `empty_component`; otherwise its first syntax or field problem.
pub open spec fn template_problem(t: Seq<char>, required: bool) -> Option<Seq<char>> {
    if required && blank(t) {
        Some("empty_component"@)
    } else {
        template_issue(t)
    }
}

/// The problems of the naming rules, as (template, code) pairs, template by template: the
/// artist and album directories and (unless source file names are kept) the file name are
/// required; the disc directory and the duplicate suffix may be empty.
pub open spec fn naming_issues(naming: NamingRules) -> Seq<(Seq<char>, Seq<char>)> {
    let entries = seq![
        ("artist_dir_template"@, template_problem(naming.artist_dir_template@, true)),
        ("album_dir_template"@, template_problem(naming.album_dir_template@, true)),
        ("disc_dir_template"@, template_problem(naming.disc_dir_template@, false)),
        ("filename_template"@, template_problem(naming.filename_template@, !naming.use_source_filename)),
        ("duplicate_suffix_template"@, template_problem(naming.duplicate_suffix_template@, false)),
    ];
    entries.filter(|e: (Seq<char>, Option<Seq<char>>)| e.1 is Some).map_values(
        |e: (Seq<char>, Option<Seq<char>>)| (e.0, e.1->0),
    )
}

fn known_field_exec(name: &Vec<char>) -> (r: bool)
    ensures
        r == known_field(name@),
{
    chars_equal_str(name, "artist") || chars_equal_str(name, "album_artist") || chars_equal_str(
        name,
        "album",
    ) || chars_equal_str(name, "title") || chars_equal_str(name, "track_no") || chars_equal_str(
        name,
        "disc_no",
    ) || chars_equal_str(name, "year") || chars_equal_str(name, "extension") || chars_equal_str(
        name,
        "source_stem",
    )
}

fn token_field_known(tok: &Vec<char>) -> (r: bool)
    ensures
        r == known_field(token_name(tok@)),
{
    assert(tok@.skip(0) == tok@);
    match find_from(tok, 0, ':') {
        Some(p) => {
            proof {
                lemma_first_pos(tok@, ':', p as int);
            }
            known_field_exec(&sub_chars(tok, 0, p))
        },
        None => known_field_exec(tok),
    }
}

/// The first problem of a template (see `template_issue`).
pub fn check_template(t: &str) -> (r: Option<&'static str>)
    ensures
        match r {
            Some(code) => template_issue(t@) == Some(code@),
            None => template_issue(t@) is None,
        },
{
    let chars = chars_of(t);
    let mut token: Option<Vec<char>> = None;
    let mut in_block = false;
    let mut i: usize = 0;
    while i < chars.len()
        invariant
            i <= chars@.len(),
            chars@ == t@,
            scan_template(t@.take(i as int)) == (TemplateScan {
                token: match token {
                    Some(v) => Some(v@),
                    None => None,
                },
                in_block,
                issue: None,
            }),
        decreases chars.len() - i,
    {
        let c = chars[i];
        assert(t@.take(i + 1).drop_last() =~= t@.take(i as int));
        assert(t@.take(i + 1).last() == c);
        match token {
            Some(mut tok) => {
                if c == '}' {
                    if !token_field_known(&tok) {
                        assert(template_issue(t@) == Some("unknown_field"@)) by {
                            lemma_scan_stops(t@, i + 1);
                        }
                        return Some("unknown_field");
                    }
                    token = None;
                } else if c == '{' {
                    assert(template_issue(t@) == Some("template_syntax"@)) by {
                        lemma_scan_stops(t@, i + 1);
                    }
                    return Some("template_syntax");
                } else {
                    tok.push(c);
                    token = Some(tok);
                }
            },
            None => {
                if c == '{' {
                    token = Some(Vec::new());
                } else if c == '}' || (c == '[' && in_block) || (c == ']' && !in_block) {
                    assert(template_issue(t@) == Some("template_syntax"@)) by {
                        lemma_scan_stops(t@, i + 1);
                    }
                    return Some("template_syntax");
                } else if c == '[' {
                    in_block = true;
                } else if c == ']' {
                    in_block = false;
                }
            },
        }
        i += 1;
    }
    assert(t@.take(chars.len() as int) =~= t@);
    if token.is_some() || in_block {
        Some("template_syntax")
    } else {
        None
    }
}

proof fn lemma_scan_stops(t: Seq<char>, k: int)
    requires
        0 <= k <= t.len(),
        scan_template(t.take(k)).issue is Some,
    ensures
        scan_template(t).issue == scan_template(t.take(k)).issue,
    decreases t.len() - k,
{
    if k < t.len() {
        assert(t.take(k + 1).drop_last() =~= t.take(k));
        lemma_scan_stops(t, k + 1);
    } else {
        assert(t.take(k) =~= t);
    }
}

fn is_blank(t: &str) -> (r: bool)
    ensures
        r == blank(t@),
{
    let chars = chars_of(t);
    let mut i: usize = 0;
    while i < chars.len()
        invariant
            i <= chars@.len(),
            chars@ == t@,
            forall|k: int| 0 <= k < i ==> t@[k] == ' ',
        decreases chars.len() - i,
    {
        if chars[i] != ' ' {
            return false;
        }
        i += 1;
    }
    true
}

fn template_problem_exec(t: &str, required: bool) -> (r: Option<&'static str>)
    ensures
        match r {
            Some(code) => template_problem(t@, required) == Some(code@),
            None => template_problem(t@, required) is None,
        },
{
    if required && is_blank(t) {
        Some("empty_component")
    } else {
        check_template(t)
    }
}

/// Checks the naming rules (see `naming_issues`): an empty list means they can be used.
pub fn validate_naming_rules(naming: &NamingRules) -> (r: Vec<NamingIssue>)
    ensures
        r@.map_values(|i: NamingIssue| (i.template@, i.code@)) == naming_issues(*naming),
{
    let mut issues: Vec<NamingIssue> = Vec::new();
    let entries: [(&str, &str, bool); 5] = [
        ("artist_dir_template", naming.artist_dir_template.as_str(), true),
        ("album_dir_template", naming.album_dir_template.as_str(), true),
        ("disc_dir_template", naming.disc_dir_template.as_str(), false),
        ("filename_template", naming.filename_template.as_str(), !naming.use_source_filename),
        ("duplicate_suffix_template", naming.duplicate_suffix_template.as_str(), false),
    ];
    let ghost all = seq![
        ("artist_dir_template"@, template_problem(naming.artist_dir_template@, true)),
        ("album_dir_template"@, template_problem(naming.album_dir_template@, true)),
        ("disc_dir_template"@, template_problem(naming.disc_dir_template@, false)),
        ("filename_template"@, template_problem(naming.filename_template@, !naming.use_source_filename)),
        ("duplicate_suffix_template"@, template_problem(naming.duplicate_suffix_template@, false)),
    ];
    let ghost pick = |e: (Seq<char>, Option<Seq<char>>)| e.1 is Some;
    let ghost unwrap = |e: (Seq<char>, Option<Seq<char>>)| (e.0, e.1->0);
    let mut k: usize = 0;
    while k < 5
        invariant
            k <= 5,
            all.len() == 5,
            pick == (|e: (Seq<char>, Option<Seq<char>>)| e.1 is Some),
            unwrap == (|e: (Seq<char>, Option<Seq<char>>)| (e.0, e.1->0)),
            forall|m: int| 0 <= m < 5 ==> (#[trigger] entries@[m]).0@ == all[m].0,
            forall|m: int|
                0 <= m < 5 ==> template_problem((#[trigger] entries@[m]).1@, entries@[m].2) == all[m].1,
            issues@.map_values(|i: NamingIssue| (i.template@, i.code@)) == all.take(k as int).filter(
                pick,
            ).map_values(unwrap),
        decreases 5 - k,
    {
        let (name, template, required) = entries[k];
        assert(all.take(k + 1).drop_last() =~= all.take(k as int));
        assert(all.take(k + 1).filter(pick) == if pick(all[k as int]) {
            all.take(k as int).filter(pick).push(all[k as int])
        } else {
            all.take(k as int).filter(pick)
        }) by {
            reveal(Seq::filter);
            assert(all.take(k + 1).last() == all[k as int]);
        }
        match template_problem_exec(template, required) {
            Some(code) => {
                let ghost before = issues@;
                issues.push(NamingIssue { template: String::from_str(name), code: String::from_str(code) });
                assert(issues@.map_values(|i: NamingIssue| (i.template@, i.code@)) =~= before.map_values(
                    |i: NamingIssue| (i.template@, i.code@),
                ).push((name@, code@)));
                assert(all.take(k as int).filter(pick).push(all[k as int]).map_values(unwrap)
                    =~= all.take(k as int).filter(pick).map_values(unwrap).push(unwrap(all[k as int])));
            },
            None => {},
        }
        k += 1;
    }
    assert(all.take(5) =~= all);
    assert(all.take(0) =~= Seq::<(Seq<char>, Option<Seq<char>>)>::empty());
    issues
}

} // verus!
