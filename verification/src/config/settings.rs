//! User settings.

use vstd::prelude::*;

use crate::text::owned;

verus! {

/// Keybinding preferences of the terminal UI.
#[derive(Debug, Clone)]
pub struct KeybindSettings {
    pub mode: String,
}

impl Default for KeybindSettings {
    fn default() -> (r: KeybindSettings)
        ensures
            r.mode@ == "default"@,
    {
        KeybindSettings { mode: owned("default") }
    }
}

/// Icon preferences of the terminal UI.
#[derive(Debug, Clone)]
pub struct IconSettings {
    pub style: String,
}

impl Default for IconSettings {
    fn default() -> (r: IconSettings)
        ensures
            r.style@ == "chars"@,
    {
        IconSettings { style: owned("chars") }
    }
}

/// Settings as stored: every field may be missing.
#[derive(Debug, Clone)]
pub struct PartialSettings {
    pub locale: Option<String>,
    pub keybindings: Option<PartialKeybindSettings>,
    pub icons: Option<PartialIconSettings>,
    pub extra_labels: Vec<String>,
    pub extra_projects: Vec<String>,
    pub max_title_length: Option<usize>,
    pub max_content_length: Option<usize>,
    pub max_project_length: Option<usize>,
}

#[derive(Debug, Clone)]
pub struct PartialKeybindSettings {
    pub mode: Option<String>,
}

#[derive(Debug, Clone)]
pub struct PartialIconSettings {
    pub style: Option<String>,
}

/// Settings in effect.
#[derive(Debug, Clone)]
pub struct Settings {
    pub locale: String,
    pub keybindings: KeybindSettings,
    pub icons: IconSettings,
    pub extra_labels: Vec<String>,
    pub extra_projects: Vec<String>,
    pub builtin_labels: Vec<String>,
    pub max_title_length: usize,
    pub max_content_length: usize,
    pub max_project_length: usize,
}

/// Models of a sequence of texts.
pub open spec fn texts_view(v: Seq<String>) -> Seq<Seq<char>> {
    v.map_values(|s: String| s@)
}

/// `list` followed by each text of `extra` that is not yet in it, in order.
pub open spec fn add_missing(list: Seq<Seq<char>>, extra: Seq<Seq<char>>) -> Seq<Seq<char>>
    decreases extra.len(),
{
    if extra.len() == 0 {
        list
    } else {
        let r = add_missing(list, extra.drop_last());
        if r.contains(extra.last()) {
            r
        } else {
            r.push(extra.last())
        }
    }
}

/// Adding the missing texts of `extra` to `list` keeps `list` in front and
/// gives exactly the texts of both.
pub proof fn lemma_add_missing(list: Seq<Seq<char>>, extra: Seq<Seq<char>>)
    ensures
        add_missing(list, extra).len() >= list.len(),
        add_missing(list, extra).take(list.len() as int) == list,
        forall|x: Seq<char>|
            #![trigger add_missing(list, extra).contains(x)]
            add_missing(list, extra).contains(x) <==> (list.contains(x) || extra.contains(x)),
    decreases extra.len(),
{
    if extra.len() == 0 {
        assert(list.take(list.len() as int) =~= list);
    } else {
        let e0 = extra.drop_last();
        lemma_add_missing(list, e0);
        let r = add_missing(list, e0);
        assert forall|x: Seq<char>| extra.contains(x) <==> (e0.contains(x) || x == extra.last()) by {
            if extra.contains(x) {
                let i = choose|i: int| 0 <= i < extra.len() && extra[i] == x;
                if i < extra.len() - 1 {
                    assert(e0[i] == x);
                }
            }
            if e0.contains(x) {
                let i = choose|i: int| 0 <= i < e0.len() && e0[i] == x;
                assert(extra[i] == x);
            }
            if x == extra.last() {
                assert(extra[extra.len() - 1] == x);
            }
        }
        if !r.contains(extra.last()) {
            let r2 = r.push(extra.last());
            assert(r2.take(list.len() as int) =~= r.take(list.len() as int));
            assert forall|x: Seq<char>| r2.contains(x) <==> (r.contains(x) || x == extra.last()) by {
                if r2.contains(x) {
                    let i = choose|i: int| 0 <= i < r2.len() && r2[i] == x;
                    if i < r.len() {
                        assert(r[i] == x);
                    }
                }
                if r.contains(x) {
                    let i = choose|i: int| 0 <= i < r.len() && r[i] == x;
                    assert(r2[i] == x);
                }
                if x == extra.last() {
                    assert(r2[r.len() as int] == x);
                }
            }
        }
    }
}

/// The built-in labels.
pub open spec fn builtin_labels_spec() -> Seq<Seq<char>> {
    seq!["bug"@, "feature"@, "improvement"@, "documentation"@, "refactor"@, "chore"@]
}

/// The text is one of the texts of `v`.
pub fn contains_string(v: &Vec<String>, s: &String) -> (r: bool)
    ensures
        r == texts_view(v@).contains(s@),
{
    let mut i: usize = 0;
    while i < v.len()
        invariant
            0 <= i <= v@.len(),
            forall|k: int| 0 <= k < i ==> (#[trigger] v@[k])@ != s@,
        decreases v@.len() - i,
    {
        if v[i] == *s {
            assert(texts_view(v@)[i as int] == s@);
            return true;
        }
        i += 1;
    }
    assert forall|k: int| 0 <= k < texts_view(v@).len() implies texts_view(v@)[k] != s@ by {
        assert(texts_view(v@)[k] == v@[k]@);
    }
    false
}

/// Appends to `list` each text of `extra` that is not yet in it.
pub fn append_missing(list: &mut Vec<String>, extra: &Vec<String>)
    ensures
        texts_view(final(list)@) == add_missing(texts_view(old(list)@), texts_view(extra@)),
{
    let ghost base = texts_view(list@);
    let mut i: usize = 0;
    while i < extra.len()
        invariant
            0 <= i <= extra@.len(),
            texts_view(list@) == add_missing(base, texts_view(extra@).take(i as int)),
            base == texts_view(old(list)@),
        decreases extra@.len() - i,
    {
        let ghost ev = texts_view(extra@);
        assert(ev.take(i + 1).drop_last() =~= ev.take(i as int));
        assert(ev.take(i + 1).last() == extra@[i as int]@);
        if !contains_string(list, &extra[i]) {
            let ghost before = list@;
            list.push(extra[i].clone());
            assert(texts_view(list@) =~= texts_view(before).push(extra@[i as int]@));
        }
        i += 1;
    }
    assert(texts_view(extra@).take(extra@.len() as int) =~= texts_view(extra@));
}

/// `p` stores the settings `s`: every user-settable field present (the
/// built-in labels are not stored).
pub open spec fn stored_as(s: Settings, p: PartialSettings) -> bool {
    &&& opt_text_view(p.locale) == Some(s.locale@)
    &&& p.keybindings matches Some(k) && opt_text_view(k.mode) == Some(s.keybindings.mode@)
    &&& p.icons matches Some(i) && opt_text_view(i.style) == Some(s.icons.style@)
    &&& texts_view(p.extra_labels@) == texts_view(s.extra_labels@)
    &&& texts_view(p.extra_projects@) == texts_view(s.extra_projects@)
    &&& p.max_title_length == Some(s.max_title_length)
    &&& p.max_content_length == Some(s.max_content_length)
    &&& p.max_project_length == Some(s.max_project_length)
}

/// `s1` is `s0` with the stored settings `p` applied: each field that is
/// present replaces the current value, and extra labels and projects are
/// added where missing.
pub open spec fn applied(s0: Settings, p: PartialSettings, s1: Settings) -> bool {
    &&& s1.locale == (match p.locale {
        Some(l) => l,
        None => s0.locale,
    })
    &&& s1.keybindings.mode == (match p.keybindings {
        Some(kb) => match kb.mode {
            Some(m) => m,
            None => s0.keybindings.mode,
        },
        None => s0.keybindings.mode,
    })
    &&& s1.icons.style == (match p.icons {
        Some(ic) => match ic.style {
            Some(st) => st,
            None => s0.icons.style,
        },
        None => s0.icons.style,
    })
    &&& texts_view(s1.extra_labels@) == add_missing(
        texts_view(s0.extra_labels@),
        texts_view(p.extra_labels@),
    )
    &&& texts_view(s1.extra_projects@) == add_missing(
        texts_view(s0.extra_projects@),
        texts_view(p.extra_projects@),
    )
    &&& s1.builtin_labels == s0.builtin_labels
    &&& s1.max_title_length == (match p.max_title_length {
        Some(v) => v,
        None => s0.max_title_length,
    })
    &&& s1.max_content_length == (match p.max_content_length {
        Some(v) => v,
        None => s0.max_content_length,
    })
    &&& s1.max_project_length == (match p.max_project_length {
        Some(v) => v,
        None => s0.max_project_length,
    })
}

impl Default for Settings {
    fn default() -> (r: Settings)
        ensures
            r.locale@ == "ja"@,
            r.keybindings.mode@ == "default"@,
            r.icons.style@ == "chars"@,
            r.extra_labels@.len() == 0,
            r.extra_projects@.len() == 0,
            texts_view(r.builtin_labels@) == builtin_labels_spec(),
            r.max_title_length == 200,
            r.max_content_length == 10_000,
            r.max_project_length == 100,
    {
        Settings {
            locale: owned("ja"),
            keybindings: KeybindSettings::default(),
            icons: IconSettings::default(),
            extra_labels: Vec::new(),
            extra_projects: Vec::new(),
            builtin_labels: Self::default_builtin_labels(),
            max_title_length: 200,
            max_content_length: 10_000,
            max_project_length: 100,
        }
    }
}

impl Settings {
    /// The built-in labels.
    pub fn default_builtin_labels() -> (r: Vec<String>)
        ensures
            texts_view(r@) == builtin_labels_spec(),
    {
        let mut v: Vec<String> = Vec::new();
        v.push(owned("bug"));
        v.push(owned("feature"));
        v.push(owned("improvement"));
        v.push(owned("documentation"));
        v.push(owned("refactor"));
        v.push(owned("chore"));
        assert(texts_view(v@) =~= builtin_labels_spec());
        v
    }

    /// All allowed labels: the built-in ones, then each extra label not yet among them.
    pub fn all_labels(&self) -> (r: Vec<String>)
        ensures
            texts_view(r@) == add_missing(texts_view(self.builtin_labels@), texts_view(self.extra_labels@)),
            texts_view(r@).take(self.builtin_labels@.len() as int) == texts_view(self.builtin_labels@),
            forall|x: Seq<char>|
                #![trigger texts_view(r@).contains(x)]
                texts_view(r@).contains(x) <==> (texts_view(self.builtin_labels@).contains(x)
                    || texts_view(self.extra_labels@).contains(x)),
    {
        let mut labels: Vec<String> = Vec::new();
        let mut i: usize = 0;
        while i < self.builtin_labels.len()
            invariant
                0 <= i <= self.builtin_labels@.len(),
                labels@.len() == i,
                texts_view(labels@) =~= texts_view(self.builtin_labels@).take(i as int),
            decreases self.builtin_labels@.len() - i,
        {
            let ghost before = labels@;
            labels.push(self.builtin_labels[i].clone());
            assert(texts_view(labels@) =~= texts_view(before).push(self.builtin_labels@[i as int]@));
            i += 1;
        }
        assert(texts_view(self.builtin_labels@).take(self.builtin_labels@.len() as int) =~= texts_view(self.builtin_labels@));
        append_missing(&mut labels, &self.extra_labels);
        proof {
            lemma_add_missing(texts_view(self.builtin_labels@), texts_view(self.extra_labels@));
        }
        labels
    }

    /// The settings as stored: every user-settable field present (the
    /// built-in labels are not stored).
    pub fn to_partial(&self) -> (r: PartialSettings)
        ensures
            stored_as(*self, r),
    {
        PartialSettings {
            locale: Some(self.locale.clone()),
            keybindings: Some(PartialKeybindSettings { mode: Some(self.keybindings.mode.clone()) }),
            icons: Some(PartialIconSettings { style: Some(self.icons.style.clone()) }),
            extra_labels: copy_texts(&self.extra_labels),
            extra_projects: copy_texts(&self.extra_projects),
            max_title_length: Some(self.max_title_length),
            max_content_length: Some(self.max_content_length),
            max_project_length: Some(self.max_project_length),
        }
    }

    /// Applies stored settings over these: each field that is present
    /// replaces the current value, and extra labels and projects are added
    /// where missing.
    pub fn apply_partial(&mut self, partial: &PartialSettings)
        ensures
            applied(*old(self), *partial, *final(self)),
    {
        if let Some(locale) = &partial.locale {
            self.locale = locale.clone();
        }
        if let Some(kb) = &partial.keybindings {
            if let Some(mode) = &kb.mode {
                self.keybindings.mode = mode.clone();
            }
        }
        if let Some(icons) = &partial.icons {
            if let Some(style) = &icons.style {
                self.icons.style = style.clone();
            }
        }
        append_missing(&mut self.extra_labels, &partial.extra_labels);
        append_missing(&mut self.extra_projects, &partial.extra_projects);
        if let Some(v) = partial.max_title_length {
            self.max_title_length = v;
        }
        if let Some(v) = partial.max_content_length {
            self.max_content_length = v;
        }
        if let Some(v) = partial.max_project_length {
            self.max_project_length = v;
        }
    }
}

/// The allowed labels are exactly the built-in and the extra labels.
pub proof fn law_labels_members(list: Seq<Seq<char>>, extra: Seq<Seq<char>>)
    ensures
        forall|x: Seq<char>| #[trigger]
            add_missing(list, extra).contains(x) <==> (list.contains(x) || extra.contains(x)),
    decreases extra.len(),
{
    if extra.len() > 0 {
        let e0 = extra.drop_last();
        law_labels_members(list, e0);
        let r = add_missing(list, e0);
        assert forall|x: Seq<char>| #[trigger]
            add_missing(list, extra).contains(x) <==> (list.contains(x) || extra.contains(x)) by {
            if e0.contains(x) {
                let k = choose|k: int| 0 <= k < e0.len() && e0[k] == x;
                assert(extra[k] == x);
            }
            if extra.contains(x) {
                let k = choose|k: int| 0 <= k < extra.len() && extra[k] == x;
                if k < extra.len() - 1 {
                    assert(e0[k] == x);
                }
            }
            if !r.contains(extra.last()) {
                if r.push(extra.last()).contains(x) {
                    let k = choose|k: int| 0 <= k < r.push(extra.last()).len() && r.push(extra.last())[k] == x;
                    if k < r.len() {
                        assert(r[k] == x);
                    }
                }
                if r.contains(x) {
                    let k = choose|k: int| 0 <= k < r.len() && r[k] == x;
                    assert(r.push(extra.last())[k] == x);
                }
                assert(r.push(extra.last())[r.len() as int] == extra.last());
            }
        }
    }
}

/// Adding the extra labels repeats none: with no label twice among the
/// built-in ones, no label appears twice among the allowed ones.
pub proof fn law_labels_no_duplicates(list: Seq<Seq<char>>, extra: Seq<Seq<char>>)
    requires
        list.no_duplicates(),
    ensures
        add_missing(list, extra).no_duplicates(),
    decreases extra.len(),
{
    if extra.len() > 0 {
        law_labels_no_duplicates(list, extra.drop_last());
        let r = add_missing(list, extra.drop_last());
        if !r.contains(extra.last()) {
            let p = r.push(extra.last());
            assert forall|i: int, j: int| 0 <= i < p.len() && 0 <= j < p.len() && i != j implies p[i]
                != p[j] by {
                if i < r.len() && j < r.len() {
                    assert(p[i] == r[i] && p[j] == r[j]);
                } else if i < r.len() {
                    assert(p[i] == r[i]);
                } else if j < r.len() {
                    assert(p[j] == r[j]);
                }
            }
        }
    }
}

/// Adding texts that repeat none to an empty list gives them back in order.
pub proof fn lemma_add_missing_to_empty(extra: Seq<Seq<char>>)
    requires
        extra.no_duplicates(),
    ensures
        add_missing(Seq::empty(), extra) == extra,
    decreases extra.len(),
{
    if extra.len() > 0 {
        let e0 = extra.drop_last();
        assert(e0.no_duplicates()) by {
            assert forall|i: int, j: int| 0 <= i < e0.len() && 0 <= j < e0.len() && i != j implies e0[i]
                != e0[j] by {
                assert(e0[i] == extra[i] && e0[j] == extra[j]);
            }
        }
        lemma_add_missing_to_empty(e0);
        if e0.contains(extra.last()) {
            let k = choose|k: int| 0 <= k < e0.len() && e0[k] == extra.last();
            assert(extra[k] == extra[extra.len() - 1]);
        }
        assert(e0.push(extra.last()) =~= extra);
    }
}

/// Settings written and read back: the stored form of settings, applied
/// over the defaults (which have no extra labels or projects), gives every
/// user-settable value back; the extra labels and projects come back as
/// they were where they repeat none.
pub proof fn law_settings_read_back(s: Settings, p: PartialSettings, d: Settings, f: Settings)
    requires
        stored_as(s, p),
        applied(d, p, f),
        d.extra_labels@.len() == 0,
        d.extra_projects@.len() == 0,
    ensures
        f.locale@ == s.locale@,
        f.keybindings.mode@ == s.keybindings.mode@,
        f.icons.style@ == s.icons.style@,
        f.max_title_length == s.max_title_length,
        f.max_content_length == s.max_content_length,
        f.max_project_length == s.max_project_length,
        f.builtin_labels == d.builtin_labels,
        texts_view(s.extra_labels@).no_duplicates() ==> texts_view(f.extra_labels@) == texts_view(
            s.extra_labels@,
        ),
        texts_view(s.extra_projects@).no_duplicates() ==> texts_view(f.extra_projects@)
            == texts_view(s.extra_projects@),
{
    assert(texts_view(d.extra_labels@) =~= Seq::empty());
    assert(texts_view(d.extra_projects@) =~= Seq::empty());
    if texts_view(s.extra_labels@).no_duplicates() {
        lemma_add_missing_to_empty(texts_view(s.extra_labels@));
    }
    if texts_view(s.extra_projects@).no_duplicates() {
        lemma_add_missing_to_empty(texts_view(s.extra_projects@));
    }
}

/// Model of an optional text.
pub open spec fn opt_text_view(o: Option<String>) -> Option<Seq<char>> {
    match o {
        Some(t) => Some(t@),
        None => None,
    }
}

/// Copies of texts, in order.
pub fn copy_texts(v: &Vec<String>) -> (r: Vec<String>)
    ensures
        texts_view(r@) == texts_view(v@),
{
    let mut out: Vec<String> = Vec::new();
    let mut i: usize = 0;
    while i < v.len()
        invariant
            0 <= i <= v@.len(),
            texts_view(out@) =~= texts_view(v@).take(i as int),
        decreases v@.len() - i,
    {
        let ghost before = out@;
        out.push(v[i].clone());
        assert(texts_view(out@) =~= texts_view(before).push(v@[i as int]@));
        i += 1;
    }
    assert(texts_view(v@).take(v@.len() as int) =~= texts_view(v@));
    out
}

} // verus!
