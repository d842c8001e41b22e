//! Skills: `SKILL.md` documents with a front-matter header, the skill list
//! built from them, the model's choice among them, and the documents
//! injected into the system prompt.
use vstd::prelude::*;
use crate::calls;
use crate::deepseek::{msg_system, msg_user, ApiMessage};
use crate::error::AppError;
use crate::order::{in_order, is_permutation, lex_lt, precedes, sorted_order};
use crate::paths::{file_name, path_file_name};
use crate::text::{
    append_chars, append_str, chars_eq, chars_start_with, find, find_chars, from_chars, has_prefix,
    is_blank, join, join_lines, lines, owned, replace_all_char, replace_char, slice_chars,
    split_lines, str_eq, str_is_blank, take_chars, take_prefix, to_chars, trim, trim_chars,
    trim_start, trim_str,
};

verus! {

/// A skill as listed.
#[derive(Debug, Clone, PartialEq, Eq)]
pub struct SkillInfo {
    pub name: String,
    pub path: String,
    pub description: String,
    pub implicit: bool,
    pub enabled: bool,
}

/// The header fields of a `SKILL.md`, as its YAML front matter gives them.
#[derive(Debug, Clone, Default)]
pub struct SkillFrontmatter {
    pub name: Option<String>,
    pub description: Option<String>,
    /// `metadata.allow-implicit-invocation`.
    pub allow_implicit_invocation: Option<bool>,
}

/// A skill found in a skill directory, before the list is made.
#[derive(Debug, Clone, PartialEq, Eq)]
pub struct SkillCandidate {
    pub name: String,
    pub path: String,
    pub description: String,
    pub implicit: bool,
}

// ---------------------------------------------------------------------------
// SKILL.md
// ---------------------------------------------------------------------------

/// The front matter delimiter.
pub open spec fn fence() -> Seq<char> {
    seq!['-', '-', '-']
}

/// The YAML header and the trimmed body of a skill document: after leading
/// whitespace the text must open with `---`; the header runs to the next
/// `---`, the body follows it.
pub open spec fn frontmatter_parts(raw: Seq<char>) -> Option<(Seq<char>, Seq<char>)> {
    let t = trim_start(raw);
    if !has_prefix(t, fence()) {
        None
    } else {
        let rest = t.subrange(3, t.len() as int);
        match find(rest, fence()) {
            None => None,
            Some(e) => Some((rest.subrange(0, e), trim(rest.subrange(e + 3, rest.len() as int)))),
        }
    }
}

/// Splits a skill document into its YAML header and its trimmed body.
pub fn split_frontmatter(raw: &str) -> (r: Option<(String, String)>)
    ensures
        match frontmatter_parts(raw@) {
            None => r is None,
            Some((y, b)) => r matches Some((ys, bs)) && ys@ == y && bs@ == b,
        },
{
    let all = to_chars(raw);
    let mut i: usize = 0;
    assert(all@.subrange(0, all.len() as int) =~= all@);
    while i < all.len() && crate::text::char_is_ws(all[i])
        invariant
            i <= all.len(),
            trim_start(all@) == trim_start(all@.subrange(i as int, all.len() as int)),
        decreases all.len() - i,
    {
        assert(all@.subrange(i as int, all.len() as int).drop_first() =~= all@.subrange(
            i + 1,
            all.len() as int,
        ));
        i += 1;
    }
    let t = slice_chars(&all, i, all.len());
    assert(trim_start(t@) == t@);
    let mut f: Vec<char> = Vec::new();
    f.push('-');
    f.push('-');
    f.push('-');
    assert(f@ =~= fence());
    if !chars_start_with(&t, &f) {
        return None;
    }
    let rest = slice_chars(&t, 3, t.len());
    proof {
        crate::text::lemma_find(rest@, fence());
    }
    match find_chars(&rest, &f) {
        None => None,
        Some(e) => {
            let len = rest.len();
            assert(e + 3 <= len);
            let after: usize = e + 3;
            let yaml = slice_chars(&rest, 0, e);
            let tail = slice_chars(&rest, after, len);
            let body = trim_chars(&tail);
            Some((from_chars(&yaml), from_chars(&body)))
        },
    }
}

/// A line that describes: not blank and not a Markdown heading.
pub open spec fn describes(l: Seq<char>) -> bool {
    !is_blank(l) && !has_prefix(trim_start(l), seq!['#'])
}

/// The first describing line, trimmed.
pub open spec fn first_description(ls: Seq<Seq<char>>) -> Option<Seq<char>>
    decreases ls.len(),
{
    if ls.len() == 0 {
        None
    } else if describes(ls[0]) {
        Some(trim(ls[0]))
    } else {
        first_description(ls.drop_first())
    }
}

/// A skill's name: the header's when given and not blank, otherwise its
/// directory's name with `_` turned into `-`, otherwise `unnamed`.
pub open spec fn skill_name_of(header_name: Option<Seq<char>>, skill_dir: Seq<char>) -> Seq<char> {
    match header_name {
        Some(n) if !is_blank(n) => n,
        _ => match file_name(skill_dir) {
            Some(f) => replace_char(f, '_', '-'),
            None => "unnamed"@,
        },
    }
}

/// The header's name wins: a non-blank name given in the front matter is
/// the skill's name whatever its directory is called, and the directory
/// decides only when the header gives no name or a blank one.
pub proof fn lemma_header_name_wins(header_name: Option<Seq<char>>, dir: Seq<char>)
    ensures
        header_name is Some && !is_blank(header_name->0) ==> skill_name_of(header_name, dir)
            == header_name->0,
        header_name is Some && is_blank(header_name->0) ==> skill_name_of(header_name, dir)
            == skill_name_of(None, dir),
        file_name(dir) is None ==> skill_name_of(None, dir) == "unnamed"@,
        file_name(dir) is Some ==> skill_name_of(None, dir) == replace_char(
            file_name(dir)->0,
            '_',
            '-',
        ),
{
}

/// A skill's description: the header's unless blank, otherwise the first
/// describing line of the body (or nothing).
pub open spec fn skill_description_of(header_description: Option<Seq<char>>, body: Seq<char>) -> Seq<
    char,
> {
    let d = match header_description {
        Some(d) => d,
        None => Seq::<char>::empty(),
    };
    if is_blank(d) {
        match first_description(lines(body)) {
            Some(l) => l,
            None => Seq::<char>::empty(),
        }
    } else {
        d
    }
}

/// The characters of an optional string.
pub open spec fn ov(o: Option<String>) -> Option<Seq<char>> {
    match o {
        Some(s) => Some(s@),
        None => None,
    }
}

/// The skill a parsed document in `skill_dir` describes.
pub fn skill_from_header(fm: &SkillFrontmatter, skill_dir: &str, body: &str) -> (c: SkillCandidate)
    ensures
        c.name@ == skill_name_of(ov(fm.name), skill_dir@),
        fm.name is Some && !is_blank(fm.name->0@) ==> c.name == fm.name->0,
        c.path@ == skill_dir@,
        c.description@ == skill_description_of(ov(fm.description), body@),
        c.implicit == match fm.allow_implicit_invocation {
            Some(b) => b,
            None => true,
        },
{
    let given = match &fm.name {
        Some(n) => !str_is_blank(n.as_str()),
        None => false,
    };
    let name = if given {
        match &fm.name {
            Some(n) => n.clone(),
            None => String::new(),
        }
    } else {
        match path_file_name(skill_dir) {
            Some(f) => {
                let v = to_chars(f.as_str());
                let w = replace_all_char(&v, '_', '-');
                from_chars(&w)
            },
            None => owned("unnamed"),
        }
    };
    let d = match &fm.description {
        Some(d) => d.clone(),
        None => String::new(),
    };
    let description = if str_is_blank(d.as_str()) {
        let b = to_chars(body);
        let ls = split_lines(&b);
        let ghost lv = ls@.map_values(|l: Vec<char>| l@);
        let mut found: Option<Vec<char>> = None;
        let mut i: usize = 0;
        let mut hash: Vec<char> = Vec::new();
        hash.push('#');
        assert(hash@ =~= seq!['#']);
        assert(lv.subrange(0, lv.len() as int) =~= lv);
        while i < ls.len()
            invariant
                i <= ls.len(),
                lv == ls@.map_values(|l: Vec<char>| l@),
                hash@ == seq!['#'],
                found is None ==> first_description(lv) == first_description(lv.subrange(
                    i as int,
                    lv.len() as int,
                )),
                found matches Some(f) ==> first_description(lv) == Some(f@),
            decreases ls.len() - i,
        {
            assert(lv.subrange(i as int, lv.len() as int).drop_first() =~= lv.subrange(
                i + 1,
                lv.len() as int,
            ));
            assert(lv.subrange(i as int, lv.len() as int)[0] == lv[i as int]);
            let t = trim_chars(&ls[i]);
            let start = crate::text::trim_start_chars(&ls[i]);
            if found.is_none() && t.len() > 0 && !chars_start_with(&start, &hash) {
                found = Some(t);
            }
            i += 1;
        }
        match found {
            Some(f) => from_chars(&f),
            None => String::new(),
        }
    } else {
        d
    };
    let implicit = match fm.allow_implicit_invocation {
        Some(b) => b,
        None => true,
    };
    SkillCandidate { name, path: owned(skill_dir), description, implicit }
}

// ---------------------------------------------------------------------------
// The skill list
// ---------------------------------------------------------------------------

/// Candidates with repeated names dropped, the first of each name kept.
pub open spec fn first_of_each_name(cs: Seq<SkillCandidate>) -> Seq<SkillCandidate>
    decreases cs.len(),
{
    if cs.len() == 0 {
        seq![]
    } else {
        let kept = first_of_each_name(cs.drop_last());
        if exists|j: int| 0 <= j < kept.len() && #[trigger] kept[j].name@ == cs.last().name@ {
            kept
        } else {
            kept.push(cs.last())
        }
    }
}

/// Whether a skill is enabled: every skill when the list is empty, else the listed ones.
pub open spec fn is_enabled(enabled_override: Seq<String>, name: Seq<char>) -> bool {
    enabled_override.len() == 0 || exists|i: int|
        0 <= i < enabled_override.len() && #[trigger] enabled_override[i]@ == name
}

/// The listing of a candidate.
pub open spec fn listed(c: SkillCandidate, enabled_override: Seq<String>, s: SkillInfo) -> bool {
    &&& s.name == c.name
    &&& s.path == c.path
    &&& s.description == c.description
    &&& s.implicit == c.implicit
    &&& s.enabled == is_enabled(enabled_override, c.name@)
}

/// `r` lists the first candidate of each name, sorted by name through `p`.
pub open spec fn sorted_listing(
    candidates: Seq<SkillCandidate>,
    enabled_override: Seq<String>,
    r: Seq<SkillInfo>,
    p: Seq<usize>,
) -> bool {
    let d = first_of_each_name(candidates);
    &&& is_permutation(p, d.len())
    &&& in_order(names_of(d), false, p)
    &&& r.len() == p.len()
    &&& forall|i: int| 0 <= i < p.len() ==> listed(d[p[i] as int], enabled_override, #[trigger] r[i])
}

/// The names of candidates.
pub open spec fn names_of(cs: Seq<SkillCandidate>) -> Seq<Seq<char>> {
    cs.map_values(|c: SkillCandidate| c.name@)
}

proof fn lemma_first_of_each_name_distinct(cs: Seq<SkillCandidate>)
    ensures
        forall|a: int, b: int|
            0 <= a < b < first_of_each_name(cs).len() ==> #[trigger] first_of_each_name(cs)[a].name@
                != #[trigger] first_of_each_name(cs)[b].name@,
    decreases cs.len(),
{
    if cs.len() > 0 {
        lemma_first_of_each_name_distinct(cs.drop_last());
        let kept = first_of_each_name(cs.drop_last());
        if !(exists|j: int| 0 <= j < kept.len() && #[trigger] kept[j].name@ == cs.last().name@) {
            let d = kept.push(cs.last());
            assert forall|a: int, b: int| 0 <= a < b < d.len() implies #[trigger] d[a].name@
                != #[trigger] d[b].name@ by {
                if b == kept.len() {
                    assert(d[a] == kept[a]);
                } else {
                    assert(d[a] == kept[a]);
                    assert(d[b] == kept[b]);
                }
            }
        }
    }
}

/// The skill list never holds two skills of one name: of skills found
/// under several roots with one name, only the first is listed.
pub proof fn lemma_listed_names_unique(
    candidates: Seq<SkillCandidate>,
    enabled_override: Seq<String>,
    r: Seq<SkillInfo>,
    p: Seq<usize>,
)
    requires
        sorted_listing(candidates, enabled_override, r, p),
    ensures
        forall|a: int, b: int| 0 <= a < b < r.len() ==> #[trigger] r[a].name@ != #[trigger] r[b].name@,
{
    lemma_first_of_each_name_distinct(candidates);
    let d = first_of_each_name(candidates);
    assert forall|a: int, b: int| 0 <= a < b < r.len() implies #[trigger] r[a].name@
        != #[trigger] r[b].name@ by {
        assert(listed(d[p[a] as int], enabled_override, r[a]));
        assert(listed(d[p[b] as int], enabled_override, r[b]));
        assert(p[a] != p[b]);
        if p[a] < p[b] {
            assert(d[p[a] as int].name@ != d[p[b] as int].name@);
        } else {
            assert(d[p[b] as int].name@ != d[p[a] as int].name@);
        }
    }
}

/// The skill list is sorted strictly ascending by name: each name comes
/// before the next, so no name occurs twice.
pub proof fn lemma_listed_names_ascending(
    candidates: Seq<SkillCandidate>,
    enabled_override: Seq<String>,
    r: Seq<SkillInfo>,
    p: Seq<usize>,
)
    requires
        sorted_listing(candidates, enabled_override, r, p),
    ensures
        forall|a: int, b: int| 0 <= a < b < r.len() ==> lex_lt(#[trigger] r[a].name@, #[trigger] r[b].name@),
{
    lemma_first_of_each_name_distinct(candidates);
    let d = first_of_each_name(candidates);
    let keys = names_of(d);
    assert forall|a: int, b: int| 0 <= a < b < r.len() implies lex_lt(#[trigger] r[a].name@, #[trigger] r[b].name@) by {
        assert(listed(d[p[a] as int], enabled_override, r[a]));
        assert(listed(d[p[b] as int], enabled_override, r[b]));
        assert(p[a] != p[b]);
        assert(precedes(keys, false, p[a] as int, p[b] as int));
        assert(keys[p[a] as int] == d[p[a] as int].name@);
        assert(keys[p[b] as int] == d[p[b] as int].name@);
        if p[a] < p[b] {
            assert(d[p[a] as int].name@ != d[p[b] as int].name@);
        } else {
            assert(d[p[b] as int].name@ != d[p[a] as int].name@);
        }
    }
}

fn dup_candidate(c: &SkillCandidate) -> (r: SkillCandidate)
    ensures
        r == *c,
{
    SkillCandidate {
        name: c.name.clone(),
        path: c.path.clone(),
        description: c.description.clone(),
        implicit: c.implicit,
    }
}

/// The skill list from the candidates found, highest-priority root first:
/// the first skill of each name, marked enabled or not, sorted by name.
pub fn collect_skills(candidates: &Vec<SkillCandidate>, enabled_override: &Vec<String>) -> (r: Vec<
    SkillInfo,
>)
    ensures
        exists|p: Seq<usize>| #[trigger] sorted_listing(candidates@, enabled_override@, r@, p),
{
    let mut kept: Vec<SkillCandidate> = Vec::new();
    let mut i: usize = 0;
    while i < candidates.len()
        invariant
            i <= candidates.len(),
            kept@ == first_of_each_name(candidates@.subrange(0, i as int)),
        decreases candidates.len() - i,
    {
        let c = &candidates[i];
        let mut seen = false;
        let mut j: usize = 0;
        while j < kept.len()
            invariant
                j <= kept.len(),
                seen == exists|t: int| 0 <= t < j && #[trigger] kept@[t].name@ == c.name@,
            decreases kept.len() - j,
        {
            if str_eq(kept[j].name.as_str(), c.name.as_str()) {
                seen = true;
            }
            j += 1;
        }
        assert(candidates@.subrange(0, i + 1).drop_last() =~= candidates@.subrange(0, i as int));
        assert(candidates@.subrange(0, i + 1).last() == *c);
        if !seen {
            kept.push(dup_candidate(c));
        }
        i += 1;
    }
    assert(candidates@.subrange(0, candidates.len() as int) =~= candidates@);
    let mut keys: Vec<Vec<char>> = Vec::new();
    let mut k: usize = 0;
    while k < kept.len()
        invariant
            k <= kept.len(),
            keys@.map_values(|x: Vec<char>| x@) == names_of(kept@.subrange(0, k as int)),
        decreases kept.len() - k,
    {
        let ghost before = keys@.map_values(|x: Vec<char>| x@);
        let key = to_chars(kept[k].name.as_str());
        keys.push(key);
        assert(keys@.map_values(|x: Vec<char>| x@) =~= before.push(key@));
        assert(names_of(kept@.subrange(0, k + 1)) =~= names_of(kept@.subrange(0, k as int)).push(
            kept@[k as int].name@,
        ));
        k += 1;
    }
    assert(kept@.subrange(0, kept.len() as int) =~= kept@);
    let p = sorted_order(&keys, false);
    let mut r: Vec<SkillInfo> = Vec::new();
    let mut t: usize = 0;
    while t < p.len()
        invariant
            t <= p.len(),
            is_permutation(p@, kept@.len()),
            r@.len() == t,
            forall|x: int|
                0 <= x < t ==> listed(kept@[p@[x] as int], enabled_override@, #[trigger] r@[x]),
        decreases p.len() - t,
    {
        let c = &kept[p[t]];
        let enabled = enabled_override.len() == 0 || crate::text::strings_contain(
            enabled_override,
            c.name.as_str(),
        );
        r.push(
            SkillInfo {
                name: c.name.clone(),
                path: c.path.clone(),
                description: c.description.clone(),
                implicit: c.implicit,
                enabled,
            },
        );
        t += 1;
    }
    assert(sorted_listing(candidates@, enabled_override@, r@, p@));
    r
}

/// The enabled skills of a list, in order.
pub open spec fn enabled_skills(s: Seq<SkillInfo>) -> Seq<SkillInfo>
    decreases s.len(),
{
    if s.len() == 0 {
        seq![]
    } else if s.last().enabled {
        enabled_skills(s.drop_last()).push(s.last())
    } else {
        enabled_skills(s.drop_last())
    }
}

fn dup_skill(s: &SkillInfo) -> (r: SkillInfo)
    ensures
        r == *s,
{
    SkillInfo {
        name: s.name.clone(),
        path: s.path.clone(),
        description: s.description.clone(),
        implicit: s.implicit,
        enabled: s.enabled,
    }
}

/// The enabled skills of a list.
pub fn enabled_only(skills: &Vec<SkillInfo>) -> (r: Vec<SkillInfo>)
    ensures
        r@ == enabled_skills(skills@),
{
    let mut r: Vec<SkillInfo> = Vec::new();
    let mut i: usize = 0;
    while i < skills.len()
        invariant
            i <= skills.len(),
            r@ == enabled_skills(skills@.subrange(0, i as int)),
        decreases skills.len() - i,
    {
        assert(skills@.subrange(0, i + 1).drop_last() =~= skills@.subrange(0, i as int));
        if skills[i].enabled {
            r.push(dup_skill(&skills[i]));
        }
        i += 1;
    }
    assert(skills@.subrange(0, skills.len() as int) =~= skills@);
    r
}

// ---------------------------------------------------------------------------
// Choosing skills
// ---------------------------------------------------------------------------

/// The catalog line of a skill.
pub open spec fn catalog_line(s: SkillInfo) -> Seq<char> {
    "- "@ + s.name@ + ": "@ + s.description@
}

/// The instruction for the skill router.
pub open spec fn router_system_text() -> Seq<char> {
    "You are a skill router. Select relevant skills by name. Reply with JSON only."@
}

/// The request to the skill router: at most three skill names as JSON.
pub open spec fn selection_prompt(skills: Seq<SkillInfo>, user_message: Seq<char>) -> Seq<char> {
    "Below are the available skills. Choose at most 3 that are most relevant to help with the user's request. Return ONLY a JSON object like {\"skillNames\": [\"skill-a\", \"skill-b\"]} (empty array if none apply).\n\nAvailable skills:\n"@
        + join(skills.map_values(|s: SkillInfo| catalog_line(s)), "\n"@) + "\n\nUser request: "@
        + user_message
}

/// The text of the skill-router request.
pub fn skill_selection_prompt(skills: &Vec<SkillInfo>, user_message: &str) -> (r: String)
    ensures
        r@ == selection_prompt(skills@, user_message@),
{
    let mut lines_v: Vec<Vec<char>> = Vec::new();
    let mut i: usize = 0;
    while i < skills.len()
        invariant
            i <= skills.len(),
            lines_v@.map_values(|l: Vec<char>| l@) == skills@.subrange(0, i as int).map_values(
                |s: SkillInfo| catalog_line(s),
            ),
        decreases skills.len() - i,
    {
        let mut l = to_chars("- ");
        append_str(&mut l, skills[i].name.as_str());
        append_str(&mut l, ": ");
        append_str(&mut l, skills[i].description.as_str());
        let ghost before = lines_v@.map_values(|l: Vec<char>| l@);
        lines_v.push(l);
        assert(lines_v@.map_values(|l: Vec<char>| l@) =~= before.push(l@));
        assert(skills@.subrange(0, i + 1).map_values(|s: SkillInfo| catalog_line(s)) =~= skills@.subrange(
            0,
            i as int,
        ).map_values(|s: SkillInfo| catalog_line(s)).push(catalog_line(skills@[i as int])));
        i += 1;
    }
    assert(skills@.subrange(0, skills.len() as int) =~= skills@);
    let nl = to_chars("\n");
    let catalog = join_lines(&lines_v, &nl);
    let mut out = to_chars(
        "Below are the available skills. Choose at most 3 that are most relevant to help with the user's request. Return ONLY a JSON object like {\"skillNames\": [\"skill-a\", \"skill-b\"]} (empty array if none apply).\n\nAvailable skills:\n",
    );
    append_chars(&mut out, &catalog);
    append_str(&mut out, "\n\nUser request: ");
    append_str(&mut out, user_message);
    from_chars(&out)
}

/// The messages of the skill-router request: its instruction and the prompt.
pub fn skill_router_messages(skills: &Vec<SkillInfo>, user_message: &str) -> (r: Vec<ApiMessage>)
    ensures
        r@.len() == 2,
        crate::deepseek::plain_message(crate::deepseek::Role::System, router_system_text(), r@[0]),
        crate::deepseek::plain_message(
            crate::deepseek::Role::User,
            selection_prompt(skills@, user_message@),
            r@[1],
        ),
{
    let prompt = skill_selection_prompt(skills, user_message);
    let mut r: Vec<ApiMessage> = Vec::new();
    r.push(msg_system("You are a skill router. Select relevant skills by name. Reply with JSON only."));
    r.push(msg_user(prompt.as_str()));
    r
}

/// The skill-router request: the model to ask, the router's instruction and
/// prompt, and the reply format asked for.
#[derive(Debug, Clone)]
pub struct RouterRequest {
    pub model: String,
    pub messages: Vec<ApiMessage>,
    /// The `response_format` type: `json_object`.
    pub response_format: String,
}

/// The skills whose names the router's reply lists, in list order.
pub open spec fn chosen(skills: Seq<SkillInfo>, names: Seq<Option<Seq<char>>>) -> Seq<SkillInfo>
    decreases skills.len(),
{
    if skills.len() == 0 {
        seq![]
    } else {
        let rest = chosen(skills.drop_last(), names);
        if exists|j: int| 0 <= j < names.len() && #[trigger] names[j] == Some(skills.last().name@) {
            rest.push(skills.last())
        } else {
            rest
        }
    }
}

/// The most skills the router may pick for a turn.
pub open spec fn pick_limit() -> nat {
    3
}

/// The skills a router reply picks: of the skills it names that exist, in
/// the list's order, the first three.
pub open spec fn picked(skills: Seq<SkillInfo>, names: Seq<Option<Seq<char>>>) -> Seq<SkillInfo> {
    let c = chosen(skills, names);
    if c.len() <= pick_limit() {
        c
    } else {
        c.take(pick_limit() as int)
    }
}

proof fn lemma_chosen_known(skills: Seq<SkillInfo>, names: Seq<Option<Seq<char>>>)
    ensures
        forall|i: int| 0 <= i < chosen(skills, names).len() ==> skills.contains(#[trigger] chosen(skills, names)[i]),
        chosen(skills, names).len() <= skills.len(),
    decreases skills.len(),
{
    if skills.len() > 0 {
        lemma_chosen_known(skills.drop_last(), names);
        let rest = chosen(skills.drop_last(), names);
        assert forall|i: int| 0 <= i < rest.len() implies skills.contains(#[trigger] rest[i]) by {
            let j = choose|j: int| 0 <= j < skills.drop_last().len() && skills.drop_last()[j] == rest[i];
            assert(skills[j] == rest[i]);
        }
        assert(skills[skills.len() - 1] == skills.last());
    }
}

/// A router reply picks at most three skills, each one of the skills offered.
pub proof fn lemma_picked_bounded(skills: Seq<SkillInfo>, names: Seq<Option<Seq<char>>>)
    ensures
        picked(skills, names).len() <= pick_limit(),
        forall|i: int| 0 <= i < picked(skills, names).len() ==> skills.contains(#[trigger] picked(skills, names)[i]),
{
    lemma_chosen_known(skills, names);
    let c = chosen(skills, names);
    assert forall|i: int| 0 <= i < picked(skills, names).len() implies skills.contains(#[trigger] picked(skills, names)[i]) by {
        assert(picked(skills, names)[i] == c[i]);
    }
}

pub open spec fn missing_content_text() -> Seq<char> {
    "技能选择响应缺少 content"@
}

pub open spec fn invalid_reply_text(content: Seq<char>) -> Seq<char> {
    "技能选择响应不是合法 JSON: "@ + take_chars(content, 200)
}

/// The result of a router reply `content`, given what parsing it found
/// under `skillNames`.
pub open spec fn reply_outcome_ok(
    skills: Seq<SkillInfo>,
    parsed: Option<Option<Seq<Option<Seq<char>>>>>,
    r: Result<Vec<SkillInfo>, AppError>,
    content: Seq<char>,
) -> bool {
    match parsed {
        None => r matches Err(AppError::Parse(m)) && m@ == invalid_reply_text(content),
        Some(None) => r matches Ok(v) && v@.len() == 0,
        Some(Some(names)) => r matches Ok(v) && v@ == picked(skills, names),
    }
}

/// Applies the router's reply to the skill list: at most three of the
/// skills it names, in the list's order.
pub fn selected_skills(skills: &Vec<SkillInfo>, content: Option<&str>) -> (r: Result<
    Vec<SkillInfo>,
    AppError,
>)
    ensures
        match content {
            None => r matches Err(AppError::Parse(m)) && m@ == missing_content_text(),
            Some(c) => reply_outcome_ok(skills@, calls::json_str_array_of(c@, "skillNames"@), r, c@),
        },
{
    let c = match content {
        None => {
            return Err(AppError::Parse(owned("技能选择响应缺少 content")));
        },
        Some(c) => c,
    };
    let parsed = calls::json_str_array(c, "skillNames");
    skills_from_reply(skills, c, parsed)
}

/// Applies a router reply `content` to the skill list, given what parsing it
/// found under `skillNames` (`None` when it is not JSON, `Some(None)` when
/// that field is no array, otherwise each item's string).
pub fn skills_from_reply(skills: &Vec<SkillInfo>, c: &str, parsed: Option<Option<Vec<Option<String>>>>) -> (r:
    Result<Vec<SkillInfo>, AppError>)
    ensures
        reply_outcome_ok(
            skills@,
            match parsed {
                None => None,
                Some(None) => Some(None),
                Some(Some(items)) => Some(
                    Some(
                        items@.map_values(
                            |o: Option<String>|
                                match o {
                                    Some(s) => Some(s@),
                                    None => None,
                                },
                        ),
                    ),
                ),
            },
            r,
            c@,
        ),
{
    match parsed {
        None => {
            let mut out = to_chars("技能选择响应不是合法 JSON: ");
            let cv = to_chars(c);
            let head = take_prefix(&cv, 200);
            append_chars(&mut out, &head);
            Err(AppError::Parse(from_chars(&out)))
        },
        Some(None) => Ok(Vec::new()),
        Some(Some(items)) => {
            let ghost names = items@.map_values(
                |o: Option<String>|
                    match o {
                        Some(s) => Some(s@),
                        None => None,
                    },
            );
            let mut r: Vec<SkillInfo> = Vec::new();
            let mut i: usize = 0;
            while i < skills.len()
                invariant
                    i <= skills.len(),
                    names == items@.map_values(
                        |o: Option<String>|
                            match o {
                                Some(s) => Some(s@),
                                None => None,
                            },
                    ),
                    r@ == chosen(skills@.subrange(0, i as int), names),
                decreases skills.len() - i,
            {
                let mut hit = false;
                let mut j: usize = 0;
                while j < items.len()
                    invariant
                        j <= items.len(),
                        i < skills.len(),
                        names == items@.map_values(
                            |o: Option<String>|
                                match o {
                                    Some(s) => Some(s@),
                                    None => None,
                                },
                        ),
                        hit == exists|t: int| 0 <= t < j && #[trigger] names[t] == Some(skills@[i as int].name@),
                    decreases items.len() - j,
                {
                    match &items[j] {
                        Some(n) => {
                            if str_eq(n.as_str(), skills[i].name.as_str()) {
                                hit = true;
                            }
                        },
                        None => {},
                    }
                    proof {
                        assert(names[j as int] == match items@[j as int] {
                            Some(s) => Some(s@),
                            None => None::<Seq<char>>,
                        });
                    }
                    j += 1;
                }
                assert(skills@.subrange(0, i + 1).drop_last() =~= skills@.subrange(0, i as int));
                assert(skills@.subrange(0, i + 1).last() == skills@[i as int]);
                if hit {
                    r.push(dup_skill(&skills[i]));
                }
                i += 1;
            }
            assert(skills@.subrange(0, skills.len() as int) =~= skills@);
            r.truncate(3);
            assert(r@ =~= picked(skills@, names));
            Ok(r)
        },
    }
}

// ---------------------------------------------------------------------------
// Skill documents
// ---------------------------------------------------------------------------

/// The block of one skill document: the body wrapped in a tag named after
/// the skill that carries its path.
pub open spec fn document_block(s: SkillInfo, body: Seq<char>) -> Seq<char> {
    "<"@ + s.name@ + " path=\""@ + s.path@ + "\">\n"@ + body + "\n</"@ + s.name@ + ">\n"@
}

/// The skill documents injected into the system prompt.
pub open spec fn documents_text(skills: Seq<SkillInfo>, bodies: Seq<String>) -> Seq<char>
    decreases skills.len(),
{
    if skills.len() == 0 || bodies.len() < skills.len() {
        "Use the skill documents below to assist the user:\n"@
    } else {
        documents_text(skills.drop_last(), bodies) + document_block(
            skills.last(),
            bodies[skills.len() - 1]@,
        )
    }
}

/// The documents text is the header followed, in order, by one block per
/// skill, each wrapping that skill's own document: the block of `skills[i]`
/// holds `bodies[i]`.
pub proof fn lemma_documents_in_order(skills: Seq<SkillInfo>, bodies: Seq<String>)
    requires
        bodies.len() >= skills.len(),
    ensures
        documents_text(skills, bodies) == "Use the skill documents below to assist the user:\n"@
            + Seq::new(skills.len(), |i: int| document_block(skills[i], bodies[i]@)).flatten(),
    decreases skills.len(),
{
    let blocks = Seq::new(skills.len(), |i: int| document_block(skills[i], bodies[i]@));
    if skills.len() == 0 {
        assert(blocks.flatten() =~= Seq::<char>::empty());
        assert("Use the skill documents below to assist the user:\n"@ + blocks.flatten()
            =~= "Use the skill documents below to assist the user:\n"@);
    } else {
        let rest = skills.drop_last();
        lemma_documents_in_order(rest, bodies);
        let front = Seq::new(rest.len(), |i: int| document_block(rest[i], bodies[i]@));
        assert(blocks =~= front.push(document_block(skills.last(), bodies[skills.len() - 1]@)));
        front.lemma_flatten_push(document_block(skills.last(), bodies[skills.len() - 1]@));
        assert(documents_text(skills, bodies) =~= "Use the skill documents below to assist the user:\n"@
            + blocks.flatten());
    }
}

/// Renders the chosen skills' documents (`bodies[i]` is the text of the
/// `SKILL.md` of `skills[i]`, empty when it could not be read) as a
/// system-prompt block.
pub fn build_skill_documents(skills: &Vec<SkillInfo>, bodies: &Vec<String>) -> (r: String)
    requires
        bodies.len() == skills.len(),
    ensures
        r@ == documents_text(skills@, bodies@),
{
    let mut out = to_chars("Use the skill documents below to assist the user:\n");
    let mut i: usize = 0;
    while i < skills.len()
        invariant
            i <= skills.len() == bodies.len(),
            out@ == documents_text(skills@.subrange(0, i as int), bodies@),
        decreases skills.len() - i,
    {
        let s = &skills[i];
        append_str(&mut out, "<");
        append_str(&mut out, s.name.as_str());
        append_str(&mut out, " path=\"");
        append_str(&mut out, s.path.as_str());
        append_str(&mut out, "\">\n");
        append_str(&mut out, bodies[i].as_str());
        append_str(&mut out, "\n</");
        append_str(&mut out, s.name.as_str());
        append_str(&mut out, ">\n");
        assert(skills@.subrange(0, i + 1).drop_last() =~= skills@.subrange(0, i as int));
        i += 1;
        assert(out@ =~= documents_text(skills@.subrange(0, i as int), bodies@));
    }
    assert(skills@.subrange(0, skills.len() as int) =~= skills@);
    from_chars(&out)
}

} // verus!
