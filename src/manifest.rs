use vstd::prelude::*;

use crate::error::Error;
use crate::setting::{set_optional_result, set_value_result, SettingManifest};
use crate::value::ConfigurableValue;

verus! {

pub open spec fn has_setting(s: Seq<SettingManifest>, id: Seq<char>) -> bool {
    exists|i: int| 0 <= i < s.len() && (#[trigger] s[i]).setting_id@ == id
}

pub open spec fn setting_ids_unique(s: Seq<SettingManifest>) -> bool {
    forall|i: int, j: int|
        0 <= i < s.len() && 0 <= j < s.len() && i != j ==> (#[trigger] s[i]).setting_id@
            != (#[trigger] s[j]).setting_id@
}

/// The position of the setting named `id` (meaningful when there is one).
pub open spec fn setting_index(s: Seq<SettingManifest>, id: Seq<char>) -> int {
    choose|i: int| 0 <= i < s.len() && (#[trigger] s[i]).setting_id@ == id
}

/// With unique ids, the setting named `id` sits at the one position holding it.
pub proof fn lemma_setting_index(s: Seq<SettingManifest>, id: Seq<char>, i: int)
    requires
        setting_ids_unique(s),
        0 <= i < s.len(),
        s[i].setting_id@ == id,
    ensures
        setting_index(s, id) == i,
{
    let j = setting_index(s, id);
    assert(0 <= j < s.len() && s[j].setting_id@ == id);
}

/// `s` with the setting at `i` changed to `t`, which has the same id.
pub proof fn lemma_update_keeps_ids(s: Seq<SettingManifest>, i: int, t: SettingManifest)
    requires
        setting_ids_unique(s),
        0 <= i < s.len(),
        t.setting_id@ == s[i].setting_id@,
    ensures
        setting_ids_unique(s.update(i, t)),
        forall|id: Seq<char>| has_setting(s.update(i, t), id) == has_setting(s, id),
{
    let u = s.update(i, t);
    assert forall|id: Seq<char>| has_setting(u, id) == has_setting(s, id) by {
        if has_setting(s, id) {
            let k = choose|k: int| 0 <= k < s.len() && (#[trigger] s[k]).setting_id@ == id;
            assert(u[k].setting_id@ == id);
        }
        if has_setting(u, id) {
            let k = choose|k: int| 0 <= k < u.len() && (#[trigger] u[k]).setting_id@ == id;
            assert(s[k].setting_id@ == id);
        }
    }
}

/// The ids of `s` with `t` appended are those of `s` and that of `t`; a
/// new id keeps them unique.
pub proof fn lemma_push_setting(s: Seq<SettingManifest>, t: SettingManifest)
    ensures
        forall|id: Seq<char>|
            has_setting(s.push(t), id) <==> (has_setting(s, id) || id == t.setting_id@),
        setting_ids_unique(s) && !has_setting(s, t.setting_id@) ==> setting_ids_unique(s.push(t)),
{
    let u = s.push(t);
    assert(u[s.len() as int] == t);
    assert forall|id: Seq<char>| has_setting(u, id) <==> (has_setting(s, id) || id == t.setting_id@) by {
        if has_setting(s, id) {
            let k = choose|k: int| 0 <= k < s.len() && (#[trigger] s[k]).setting_id@ == id;
            assert(u[k] == s[k]);
        }
        if has_setting(u, id) {
            let k = choose|k: int| 0 <= k < u.len() && (#[trigger] u[k]).setting_id@ == id;
            if k < s.len() {
                assert(u[k] == s[k]);
            }
        }
    }
    if setting_ids_unique(s) && !has_setting(s, t.setting_id@) {
        assert forall|i: int, j: int|
            0 <= i < u.len() && 0 <= j < u.len() && i != j implies (#[trigger] u[i]).setting_id@
            != (#[trigger] u[j]).setting_id@ by {
            if i == s.len() {
                assert(u[j] == s[j]);
            } else if j == s.len() {
                assert(u[i] == s[i]);
            } else {
                assert(u[i] == s[i] && u[j] == s[j]);
            }
        }
    }
}

/// The candidate value of one setting, in a bulk update.
#[derive(Debug)]
pub struct SettingManifestValue {
    pub value: Option<ConfigurableValue>,
}

/// Candidate values for the settings of one section, keyed by setting id.
#[derive(Debug)]
pub struct SectionManifestValue {
    pub settings: Vec<(String, SettingManifestValue)>,
}

/// Candidate values for a whole manifest, keyed by section id.
#[derive(Debug)]
pub struct ManifestValue {
    pub setting_sections: Vec<(String, SectionManifestValue)>,
}

/// Whether entry `k` is the first of `entries` keyed `id`.
pub open spec fn first_keyed<T>(entries: Seq<(String, T)>, id: Seq<char>, k: int) -> bool {
    &&& 0 <= k < entries.len()
    &&& entries[k].0@ == id
    &&& forall|j: int| 0 <= j < k ==> (#[trigger] entries[j]).0@ != id
}

pub open spec fn has_key<T>(entries: Seq<(String, T)>, id: Seq<char>) -> bool {
    exists|k: int| 0 <= k < entries.len() && (#[trigger] entries[k]).0@ == id
}

/// An entry keyed `id` at `i` means that a first one exists.
pub proof fn lemma_first_key_exists<T>(entries: Seq<(String, T)>, id: Seq<char>, i: int)
    requires
        0 <= i < entries.len(),
        entries[i].0@ == id,
    ensures
        exists|k: int| first_keyed(entries, id, k),
    decreases i,
{
    if exists|j: int| 0 <= j < i && (#[trigger] entries[j]).0@ == id {
        let j = choose|j: int| 0 <= j < i && (#[trigger] entries[j]).0@ == id;
        lemma_first_key_exists(entries, id, j);
    } else {
        assert(first_keyed(entries, id, i));
    }
}

/// The first entry keyed `id`, by position.
fn find_key<T>(entries: &Vec<(String, T)>, id: &str) -> (r: Option<usize>)
    ensures
        r matches Some(k) ==> first_keyed(entries@, id@, k as int),
        r is None ==> !has_key(entries@, id@),
{
    let key = String::from_str(id);
    let mut k: usize = 0;
    while k < entries.len()
        invariant
            k <= entries@.len(),
            key@ == id@,
            forall|j: int| 0 <= j < k ==> (#[trigger] entries@[j]).0@ != id@,
        decreases entries@.len() - k,
    {
        if entries[k].0 == key {
            return Some(k);
        }
        k += 1;
    }
    None
}

impl SectionManifestValue {
    /// The candidate value of setting `setting_id`, the first if several.
    pub fn get_setting(&self, setting_id: &str) -> (r: Option<&SettingManifestValue>)
        ensures
            r is None <==> !has_key(self.settings@, setting_id@),
            r matches Some(v) ==> exists|k: int|
                first_keyed(self.settings@, setting_id@, k) && (#[trigger] self.settings@[k]).1 == *v,
    {
        match find_key(&self.settings, setting_id) {
            Some(k) => Some(&self.settings[k].1),
            None => None,
        }
    }
}

impl ManifestValue {
    /// The candidate values of section `section_id`, the first if several.
    pub fn get_section(&self, section_id: &str) -> (r: Option<&SectionManifestValue>)
        ensures
            r is None <==> !has_key(self.setting_sections@, section_id@),
            r matches Some(v) ==> exists|k: int|
                first_keyed(self.setting_sections@, section_id@, k) && (
                #[trigger] self.setting_sections@[k]).1 == *v,
    {
        match find_key(&self.setting_sections, section_id) {
            Some(k) => Some(&self.setting_sections[k].1),
            None => None,
        }
    }

    /// The candidate value of a setting, by section and setting id.
    pub fn get_setting(&self, section_id: &str, setting_id: &str) -> (r: Option<&SettingManifestValue>)
        ensures
            match self.get_section_spec(section_id@) {
                None => r is None,
                Some(sec) => {
                    &&& r is None <==> !has_key(sec.settings@, setting_id@)
                    &&& r matches Some(v) ==> exists|k: int|
                        first_keyed(sec.settings@, setting_id@, k) && (#[trigger] sec.settings@[k]).1 == *v
                },
            },
    {
        match self.get_section(section_id) {
            Some(sec) => sec.get_setting(setting_id),
            None => None,
        }
    }

    /// The first section keyed `id`, if any.
    pub open spec fn get_section_spec(&self, id: Seq<char>) -> Option<SectionManifestValue> {
        if has_key(self.setting_sections@, id) {
            let k = choose|k: int| first_keyed(self.setting_sections@, id, k);
            Some(self.setting_sections@[k].1)
        } else {
            None
        }
    }

    /// All sections of candidate values, in order.
    pub fn get_all_sections(&self) -> (r: &Vec<(String, SectionManifestValue)>)
        ensures
            r@ == self.setting_sections@,
    {
        &self.setting_sections
    }
}

/// The verdict on one candidate entry against the settings `s`.
pub open spec fn entry_verdict(s: Seq<SettingManifest>, id: Seq<char>, v: Option<ConfigurableValue>) -> Result<
    (),
    Error,
> {
    if has_setting(s, id) {
        set_optional_result(s[setting_index(s, id)], v)
    } else {
        Err(Error::SettingNotFound)
    }
}

/// The verdict on candidate entries for settings `s`: the first failing
/// entry decides.
pub open spec fn section_verdict(s: Seq<SettingManifest>, entries: Seq<(String, SettingManifestValue)>) -> Result<
    (),
    Error,
>
    decreases entries.len(),
{
    if entries.len() == 0 {
        Ok(())
    } else {
        match entry_verdict(s, entries[0].0@, entries[0].1.value) {
            Err(e) => Err(e),
            Ok(_) => section_verdict(s, entries.drop_first()),
        }
    }
}

/// A candidate section that passes validation can be committed entry by
/// entry: every setting it names exists, and setting its candidate value
/// succeeds.
pub proof fn lemma_valid_section_commits(
    s: Seq<SettingManifest>,
    entries: Seq<(String, SettingManifestValue)>,
    k: int,
)
    requires
        section_verdict(s, entries) is Ok,
        0 <= k < entries.len(),
    ensures
        has_setting(s, entries[k].0@),
        set_optional_result(s[setting_index(s, entries[k].0@)], entries[k].1.value) is Ok,
    decreases k,
{
    if k > 0 {
        assert(entries.drop_first()[k - 1] == entries[k]);
        lemma_valid_section_commits(s, entries.drop_first(), k - 1);
    }
}

/// What `update_setting` does to settings `old_s`, giving `new_s` and `r`.
pub open spec fn value_update_is(
    old_s: Seq<SettingManifest>,
    new_s: Seq<SettingManifest>,
    id: Seq<char>,
    value: ConfigurableValue,
    r: Result<(), Error>,
) -> bool {
    &&& !has_setting(old_s, id) ==> r == Err::<(), Error>(Error::SettingNotFound) && new_s == old_s
    &&& has_setting(old_s, id) ==> {
        let i = setting_index(old_s, id);
        let s = old_s[i];
        &&& r == set_value_result(s, value)
        &&& r is Ok ==> new_s == old_s.update(i, s.with_value(Some(value)))
        &&& r is Err ==> new_s == old_s
    }
}

/// What setting an optional value does to settings `old_s`.
pub open spec fn optional_update_is(
    old_s: Seq<SettingManifest>,
    new_s: Seq<SettingManifest>,
    id: Seq<char>,
    value: Option<ConfigurableValue>,
    r: Result<(), Error>,
) -> bool {
    &&& !has_setting(old_s, id) ==> r == Err::<(), Error>(Error::SettingNotFound) && new_s == old_s
    &&& has_setting(old_s, id) ==> {
        let i = setting_index(old_s, id);
        let s = old_s[i];
        &&& r == set_optional_result(s, value)
        &&& r is Ok ==> new_s == old_s.update(i, s.with_value(value))
        &&& r is Err ==> new_s == old_s
    }
}

/// What `set_setting` does to settings `old_s`.
pub open spec fn replacement_is(
    old_s: Seq<SettingManifest>,
    new_s: Seq<SettingManifest>,
    setting: SettingManifest,
    r: Result<(), Error>,
) -> bool {
    &&& !has_setting(old_s, setting.setting_id@) ==> r == Err::<(), Error>(Error::SettingNotFound)
        && new_s == old_s
    &&& has_setting(old_s, setting.setting_id@) ==> r is Ok && new_s == old_s.update(
        setting_index(old_s, setting.setting_id@),
        setting,
    )
}

/// What changing the mutability flag of setting `id` does to `old_s`.
pub open spec fn mutability_update_is(
    old_s: Seq<SettingManifest>,
    new_s: Seq<SettingManifest>,
    id: Seq<char>,
    flag: bool,
    r: Option<bool>,
) -> bool {
    &&& !has_setting(old_s, id) ==> r is None && new_s == old_s
    &&& has_setting(old_s, id) ==> {
        let i = setting_index(old_s, id);
        let s = old_s[i];
        &&& r == Some(s.is_mutable)
        &&& new_s == old_s.update(i, SettingManifest { is_mutable: flag, ..s })
    }
}

/// A named group of settings, kept in insertion order, with unique ids.
#[derive(Debug)]
pub struct SectionManifest {
    section_id: String,
    name: String,
    description: String,
    settings: Vec<SettingManifest>,
}

impl View for SectionManifest {
    type V = Seq<SettingManifest>;

    closed spec fn view(&self) -> Seq<SettingManifest> {
        self.settings@
    }
}

impl SectionManifest {
    /// Setting ids are unique.
    pub closed spec fn wf(&self) -> bool {
        setting_ids_unique(self.settings@)
    }

    pub closed spec fn id(&self) -> Seq<char> {
        self.section_id@
    }

    /// A well-formed section holds each setting id once.
    pub proof fn lemma_ids_unique(&self)
        requires
            self.wf(),
        ensures
            setting_ids_unique(self@),
    {
    }

    pub closed spec fn title(&self) -> Seq<char> {
        self.name@
    }

    pub closed spec fn about(&self) -> Seq<char> {
        self.description@
    }

    /// A section holding `settings` in order; of two settings with one id,
    /// the later replaces the earlier in its place.
    pub fn new(section_id: String, name: String, description: String, settings: Vec<
        SettingManifest,
    >) -> (r: Self)
        ensures
            r.wf(),
            r.id() == section_id@,
            r.title() == name@,
            r.about() == description@,
            forall|id: Seq<char>| #[trigger] has_setting(r@, id) <==> has_setting(settings@, id),
            setting_ids_unique(settings@) ==> r@ == settings@,
    {
        let mut r = SectionManifest {
            section_id,
            name,
            description,
            settings: Vec::new(),
        };
        let mut rest = settings;
        let ghost all = rest@;
        let ghost n: int = 0;
        while rest.len() > 0
            invariant
                r.id() == section_id@,
                r.title() == name@,
                r.about() == description@,
                r.wf(),
                0 <= n <= all.len(),
                rest@ == all.subrange(n, all.len() as int),
                forall|id: Seq<char>| #[trigger]
                    has_setting(r@, id) <==> has_setting(all.subrange(0, n), id),
                setting_ids_unique(all) ==> r@ == all.subrange(0, n),
            decreases rest@.len(),
        {
            let s = rest.remove(0);
            proof {
                assert(s == all[n]);
                let before = all.subrange(0, n);
                let after = all.subrange(0, n + 1);
                assert(after == before.push(s));
                lemma_push_setting(before, s);
                if setting_ids_unique(all) {
                    assert forall|k: int| 0 <= k < before.len() implies (#[trigger] before[k]).setting_id@
                        != s.setting_id@ by {
                        assert(all[k] == before[k]);
                    }
                }
                n = n + 1;
            }
            r.insert_setting(s);
            proof {
                assert(rest@ =~= all.subrange(n, all.len() as int));
            }
        }
        proof {
            assert(all.subrange(0, n) =~= all);
        }
        r
    }

    pub fn section_id(&self) -> (r: &String)
        ensures
            r@ == self.id(),
    {
        &self.section_id
    }

    pub fn name(&self) -> (r: &String)
        ensures
            r@ == self.title(),
    {
        &self.name
    }

    pub fn description(&self) -> (r: &String)
        ensures
            r@ == self.about(),
    {
        &self.description
    }

    /// All settings, in their stored order.
    pub fn all_settings(&self) -> (r: &Vec<SettingManifest>)
        ensures
            r@ == self@,
    {
        &self.settings
    }

    fn find(&self, id: &str) -> (r: Option<usize>)
        requires
            self.wf(),
        ensures
            r matches Some(i) ==> i < self@.len() && self@[i as int].setting_id@ == id@,
            r is None ==> !has_setting(self@, id@),
    {
        let key = String::from_str(id);
        let mut i: usize = 0;
        while i < self.settings.len()
            invariant
                i <= self.settings@.len(),
                key@ == id@,
                forall|j: int| 0 <= j < i ==> (#[trigger] self.settings@[j]).setting_id@ != id@,
            decreases self.settings@.len() - i,
        {
            if self.settings[i].setting_id == key {
                return Some(i);
            }
            i += 1;
        }
        None
    }

    /// The setting named `setting_id`, if any.
    pub fn get_setting(&self, setting_id: &str) -> (r: Option<&SettingManifest>)
        requires
            self.wf(),
        ensures
            r is None <==> !has_setting(self@, setting_id@),
            r matches Some(s) ==> s.setting_id@ == setting_id@ && self@.contains(*s),
    {
        match self.find(setting_id) {
            Some(i) => Some(&self.settings[i]),
            None => None,
        }
    }

    /// Appends `setting`, unless a setting with its id is already present.
    pub fn add_setting(&mut self, setting: SettingManifest) -> (r: Result<(), Error>)
        requires
            old(self).wf(),
        ensures
            final(self).wf(),
            r is Err <==> has_setting(old(self)@, setting.setting_id@),
            has_setting(old(self)@, setting.setting_id@) ==> r == Err::<(), Error>(
                Error::SettingExists,
            ) && final(self)@ == old(self)@,
            !has_setting(old(self)@, setting.setting_id@) ==> r is Ok && final(self)@ == old(
                self,
            )@.push(setting),
            final(self).id() == old(self).id(),
            final(self).title() == old(self).title(),
            final(self).about() == old(self).about(),
    {
        match self.find(setting.setting_id.as_str()) {
            Some(_) => Err(Error::SettingExists),
            None => {
                let ghost before = self.settings@;
                self.settings.push(setting);
                proof {
                    assert forall|i: int, j: int|
                        0 <= i < self.settings@.len() && 0 <= j < self.settings@.len() && i
                            != j implies (#[trigger] self.settings@[i]).setting_id@
                        != (#[trigger] self.settings@[j]).setting_id@ by {
                        if i == before.len() {
                            assert(before[j].setting_id@ != setting.setting_id@);
                        } else if j == before.len() {
                            assert(before[i].setting_id@ != setting.setting_id@);
                        }
                    }
                }
                Ok(())
            },
        }
    }

    /// Replaces the setting with the id of `setting`, in its place, if there
    /// is one.
    pub fn set_setting(&mut self, setting: SettingManifest) -> (r: Result<(), Error>)
        requires
            old(self).wf(),
        ensures
            final(self).wf(),
            replacement_is(old(self)@, final(self)@, setting, r),
            r is Err <==> !has_setting(old(self)@, setting.setting_id@),
            final(self).id() == old(self).id(),
            final(self).title() == old(self).title(),
            final(self).about() == old(self).about(),
    {
        match self.find(setting.setting_id.as_str()) {
            Some(i) => {
                proof {
                    lemma_setting_index(self.settings@, setting.setting_id@, i as int);
                    lemma_update_keeps_ids(self.settings@, i as int, setting);
                }
                self.settings[i] = setting;
                Ok(())
            },
            None => Err(Error::SettingNotFound),
        }
    }

    /// Replaces the setting with the id of `setting`, in its place, or
    /// appends it when there is none.
    pub fn insert_setting(&mut self, setting: SettingManifest)
        requires
            old(self).wf(),
        ensures
            final(self).wf(),
            !has_setting(old(self)@, setting.setting_id@) ==> final(self)@ == old(self)@.push(
                setting,
            ),
            has_setting(old(self)@, setting.setting_id@) ==> final(self)@ == old(self)@.update(
                setting_index(old(self)@, setting.setting_id@),
                setting,
            ),
            forall|id: Seq<char>| #[trigger]
                has_setting(final(self)@, id) <==> (has_setting(old(self)@, id) || id
                    == setting.setting_id@),
            final(self).id() == old(self).id(),
            final(self).title() == old(self).title(),
            final(self).about() == old(self).about(),
    {
        let ghost before = self.settings@;
        let ghost key = setting.setting_id@;
        match self.find(setting.setting_id.as_str()) {
            Some(i) => {
                proof {
                    lemma_setting_index(self.settings@, setting.setting_id@, i as int);
                    lemma_update_keeps_ids(self.settings@, i as int, setting);
                }
                self.settings[i] = setting;
            },
            None => {
                proof {
                    lemma_push_setting(before, setting);
                }
                self.settings.push(setting);
            },
        }
    }

    /// Sets the value of the setting named `setting_id` as
    /// `SettingManifest::set_value` does.
    pub fn update_setting(&mut self, setting_id: &str, value: ConfigurableValue) -> (r: Result<
        (),
        Error,
    >)
        requires
            old(self).wf(),
        ensures
            final(self).wf(),
            value_update_is(old(self)@, final(self)@, setting_id@, value, r),
            final(self).id() == old(self).id(),
            final(self).title() == old(self).title(),
            final(self).about() == old(self).about(),
    {
        match self.find(setting_id) {
            Some(i) => {
                proof {
                    lemma_setting_index(self.settings@, setting_id@, i as int);
                }
                let ghost s = self.settings@[i as int];
                proof {
                    lemma_update_keeps_ids(self.settings@, i as int, s.with_value(Some(value)));
                }
                let ghost before = self.settings@;
                let r = self.settings[i].set_value(value);
                proof {
                    if r is Err {
                        assert(self.settings@ =~= before);
                    }
                }
                r
            },
            None => Err(Error::SettingNotFound),
        }
    }

    /// Sets the value of the setting named `setting_id` as
    /// `SettingManifest::set_optional_value` does.
    pub fn set_setting_value(&mut self, setting_id: &str, value: Option<ConfigurableValue>) -> (r:
        Result<(), Error>)
        requires
            old(self).wf(),
        ensures
            final(self).wf(),
            optional_update_is(old(self)@, final(self)@, setting_id@, value, r),
            final(self).id() == old(self).id(),
            final(self).title() == old(self).title(),
            final(self).about() == old(self).about(),
    {
        match self.find(setting_id) {
            Some(i) => {
                proof {
                    lemma_setting_index(self.settings@, setting_id@, i as int);
                }
                let ghost s = self.settings@[i as int];
                proof {
                    lemma_update_keeps_ids(self.settings@, i as int, s.with_value(value));
                }
                let ghost before = self.settings@;
                let r = self.settings[i].set_optional_value(value);
                proof {
                    if r is Err {
                        assert(self.settings@ =~= before);
                    }
                }
                r
            },
            None => Err(Error::SettingNotFound),
        }
    }

    /// Sets whether the setting named `setting_id` can change, giving back
    /// its former flag; `None` when there is no such setting.
    pub fn set_setting_mut(&mut self, setting_id: &str, is_mutable: bool) -> (r: Option<bool>)
        requires
            old(self).wf(),
        ensures
            final(self).wf(),
            mutability_update_is(old(self)@, final(self)@, setting_id@, is_mutable, r),
            final(self).id() == old(self).id(),
            final(self).title() == old(self).title(),
            final(self).about() == old(self).about(),
    {
        match self.find(setting_id) {
            Some(i) => {
                proof {
                    lemma_setting_index(self.settings@, setting_id@, i as int);
                }
                let ghost s = self.settings@[i as int];
                proof {
                    lemma_update_keeps_ids(
                        self.settings@,
                        i as int,
                        SettingManifest { is_mutable, ..s },
                    );
                }
                let former = self.settings[i].is_mutable;
                self.settings[i].is_mutable = is_mutable;
                Some(former)
            },
            None => None,
        }
    }

    /// Checks every candidate entry against this section without changing
    /// anything; the first failing entry gives the error.
    pub fn validate_section(&self, value: &SectionManifestValue) -> (r: Result<(), Error>)
        requires
            self.wf(),
        ensures
            r == section_verdict(self@, value.settings@),
    {
        let ghost entries = value.settings@;
        assert(entries.subrange(0, entries.len() as int) =~= entries);
        let mut k: usize = 0;
        while k < value.settings.len()
            invariant
                k <= entries.len(),
                entries == value.settings@,
                self.wf(),
                section_verdict(self@, entries) == section_verdict(
                    self@,
                    entries.subrange(k as int, entries.len() as int),
                ),
            decreases entries.len() - k,
        {
            let entry = &value.settings[k];
            let verdict = match self.find(entry.0.as_str()) {
                Some(i) => {
                    proof {
                        lemma_setting_index(self@, entry.0@, i as int);
                    }
                    self.settings[i].validate_setting(&entry.1.value)
                },
                None => Err(Error::SettingNotFound),
            };
            let ghost rest = entries.subrange(k as int, entries.len() as int);
            proof {
                assert(rest[0] == entries[k as int]);
                assert(rest.drop_first() =~= entries.subrange(k + 1, entries.len() as int));
            }
            match verdict {
                Err(e) => {
                    return Err(e);
                },
                Ok(()) => {},
            }
            k += 1;
        }
        proof {
            assert(entries.subrange(k as int, entries.len() as int).len() == 0);
        }
        Ok(())
    }
}

pub open spec fn has_section(s: Seq<SectionManifest>, id: Seq<char>) -> bool {
    exists|i: int| 0 <= i < s.len() && (#[trigger] s[i]).id() == id
}

pub open spec fn section_ids_unique(s: Seq<SectionManifest>) -> bool {
    forall|i: int, j: int|
        0 <= i < s.len() && 0 <= j < s.len() && i != j ==> (#[trigger] s[i]).id() != (
        #[trigger] s[j]).id()
}

/// The position of the section named `id` (meaningful when there is one).
pub open spec fn section_index(s: Seq<SectionManifest>, id: Seq<char>) -> int {
    choose|i: int| 0 <= i < s.len() && (#[trigger] s[i]).id() == id
}

pub proof fn lemma_section_index(s: Seq<SectionManifest>, id: Seq<char>, i: int)
    requires
        section_ids_unique(s),
        0 <= i < s.len(),
        s[i].id() == id,
    ensures
        section_index(s, id) == i,
{
    let j = section_index(s, id);
    assert(0 <= j < s.len() && s[j].id() == id);
}

/// The ids of `s` with `t` appended are those of `s` and that of `t`; a
/// new id keeps them unique.
pub proof fn lemma_push_section(s: Seq<SectionManifest>, t: SectionManifest)
    ensures
        forall|id: Seq<char>| has_section(s.push(t), id) <==> (has_section(s, id) || id == t.id()),
        section_ids_unique(s) && !has_section(s, t.id()) ==> section_ids_unique(s.push(t)),
{
    let u = s.push(t);
    assert(u[s.len() as int] == t);
    assert forall|id: Seq<char>| has_section(u, id) <==> (has_section(s, id) || id == t.id()) by {
        if has_section(s, id) {
            let k = choose|k: int| 0 <= k < s.len() && (#[trigger] s[k]).id() == id;
            assert(u[k] == s[k]);
        }
        if has_section(u, id) {
            let k = choose|k: int| 0 <= k < u.len() && (#[trigger] u[k]).id() == id;
            if k < s.len() {
                assert(u[k] == s[k]);
            }
        }
    }
    if section_ids_unique(s) && !has_section(s, t.id()) {
        assert forall|i: int, j: int|
            0 <= i < u.len() && 0 <= j < u.len() && i != j implies (#[trigger] u[i]).id() != (
            #[trigger] u[j]).id() by {
            if i == s.len() {
                assert(u[j] == s[j]);
            } else if j == s.len() {
                assert(u[i] == s[i]);
            } else {
                assert(u[i] == s[i] && u[j] == s[j]);
            }
        }
    }
}

/// Replacing the section at `i` by one with the same id keeps the ids.
pub proof fn lemma_update_section(s: Seq<SectionManifest>, i: int, t: SectionManifest)
    requires
        0 <= i < s.len(),
        t.id() == s[i].id(),
    ensures
        forall|id: Seq<char>| has_section(s.update(i, t), id) == has_section(s, id),
        section_ids_unique(s) ==> section_ids_unique(s.update(i, t)),
{
    let u = s.update(i, t);
    assert forall|id: Seq<char>| has_section(u, id) == has_section(s, id) by {
        if has_section(s, id) {
            let k = choose|k: int| 0 <= k < s.len() && (#[trigger] s[k]).id() == id;
            assert(u[k].id() == id);
        }
        if has_section(u, id) {
            let k = choose|k: int| 0 <= k < u.len() && (#[trigger] u[k]).id() == id;
            assert(s[k].id() == id);
        }
    }
    assert forall|a: int, b: int|
        0 <= a < u.len() && 0 <= b < u.len() && a != b && section_ids_unique(s) implies (
        #[trigger] u[a]).id() != (#[trigger] u[b]).id() by {
        assert(u[a].id() == s[a].id());
        assert(u[b].id() == s[b].id());
    }
}

/// `new_s` is `old_s` where only the settings of the section at `i` may have
/// changed.
pub open spec fn only_section_changed(
    old_s: Seq<SectionManifest>,
    new_s: Seq<SectionManifest>,
    i: int,
) -> bool {
    &&& new_s.len() == old_s.len()
    &&& forall|j: int| 0 <= j < old_s.len() && j != i ==> new_s[j] == old_s[j]
    &&& new_s[i].id() == old_s[i].id()
    &&& new_s[i].title() == old_s[i].title()
    &&& new_s[i].about() == old_s[i].about()
    &&& new_s[i].wf()
}

/// The verdict on one candidate section against the sections `s`.
pub open spec fn section_entry_verdict(
    s: Seq<SectionManifest>,
    id: Seq<char>,
    v: SectionManifestValue,
) -> Result<(), Error> {
    if has_section(s, id) {
        section_verdict(s[section_index(s, id)]@, v.settings@)
    } else {
        Err(Error::SectionNotFound)
    }
}

/// The verdict on candidate sections: the first failing entry decides.
pub open spec fn manifest_verdict(s: Seq<SectionManifest>, entries: Seq<(String, SectionManifestValue)>) -> Result<
    (),
    Error,
>
    decreases entries.len(),
{
    if entries.len() == 0 {
        Ok(())
    } else {
        match section_entry_verdict(s, entries[0].0@, entries[0].1) {
            Err(e) => Err(e),
            Ok(_) => manifest_verdict(s, entries.drop_first()),
        }
    }
}

/// A candidate manifest that passes validation can be committed entry by
/// entry: every section and setting it names exists, and
/// `set_setting_value` with the candidate value succeeds on each.
pub proof fn lemma_valid_manifest_commits(
    secs: Seq<SectionManifest>,
    entries: Seq<(String, SectionManifestValue)>,
    k: int,
    j: int,
)
    requires
        manifest_verdict(secs, entries) is Ok,
        0 <= k < entries.len(),
        0 <= j < entries[k].1.settings@.len(),
    ensures
        has_section(secs, entries[k].0@),
        ({
            let sec = secs[section_index(secs, entries[k].0@)]@;
            let id = entries[k].1.settings@[j].0@;
            &&& has_setting(sec, id)
            &&& set_optional_result(sec[setting_index(sec, id)], entries[k].1.settings@[j].1.value)
                is Ok
        }),
    decreases k,
{
    if k > 0 {
        assert(entries.drop_first()[k - 1] == entries[k]);
        lemma_valid_manifest_commits(secs, entries.drop_first(), k - 1, j);
    } else {
        let sec = secs[section_index(secs, entries[0].0@)]@;
        lemma_valid_section_commits(sec, entries[0].1.settings@, j);
    }
}

/// The settings registry of one instance: capability flags and sections of
/// settings, both kept in insertion order with unique ids.
#[derive(Debug)]
pub struct ConfigurableManifest {
    auto_start: bool,
    restart_on_crash: bool,
    start_on_connection: bool,
    timeout_last_left: bool,
    setting_sections: Vec<SectionManifest>,
}

impl View for ConfigurableManifest {
    type V = Seq<SectionManifest>;

    closed spec fn view(&self) -> Seq<SectionManifest> {
        self.setting_sections@
    }
}

impl ConfigurableManifest {
    /// Section ids are unique and every section is well formed.
    pub closed spec fn wf(&self) -> bool {
        &&& section_ids_unique(self.setting_sections@)
        &&& forall|i: int|
            0 <= i < self.setting_sections@.len() ==> (#[trigger] self.setting_sections@[i]).wf()
    }

    /// The capability flags: auto start, restart on crash, start on
    /// connection, timeout when the last player left.
    pub closed spec fn flags(&self) -> (bool, bool, bool, bool) {
        (self.auto_start, self.restart_on_crash, self.start_on_connection, self.timeout_last_left)
    }

    /// A manifest with the given flags and `setting_sections` in order; of two
    /// sections with one id, the later replaces the earlier in its place.
    pub fn new(
        auto_start: bool,
        restart_on_crash: bool,
        start_on_connection: bool,
        timeout_last_left: bool,
        setting_sections: Vec<SectionManifest>,
    ) -> (r: Self)
        requires
            forall|i: int| 0 <= i < setting_sections@.len() ==> (#[trigger] setting_sections@[i]).wf(),
        ensures
            r.wf(),
            r.flags() == (auto_start, restart_on_crash, start_on_connection, timeout_last_left),
            forall|id: Seq<char>| #[trigger]
                has_section(r@, id) <==> has_section(setting_sections@, id),
            section_ids_unique(setting_sections@) ==> r@ == setting_sections@,
    {
        let mut r = ConfigurableManifest {
            auto_start,
            restart_on_crash,
            start_on_connection,
            timeout_last_left,
            setting_sections: Vec::new(),
        };
        let mut rest = setting_sections;
        let ghost all = rest@;
        let ghost n: int = 0;
        while rest.len() > 0
            invariant
                r.wf(),
                r.flags() == (auto_start, restart_on_crash, start_on_connection, timeout_last_left),
                0 <= n <= all.len(),
                rest@ == all.subrange(n, all.len() as int),
                forall|i: int| 0 <= i < all.len() ==> (#[trigger] all[i]).wf(),
                forall|id: Seq<char>| #[trigger]
                    has_section(r@, id) <==> has_section(all.subrange(0, n), id),
                section_ids_unique(all) ==> r@ == all.subrange(0, n),
            decreases rest@.len(),
        {
            let s = rest.remove(0);
            proof {
                assert(s == all[n]);
                let before = all.subrange(0, n);
                let after = all.subrange(0, n + 1);
                assert(after == before.push(s));
                lemma_push_section(before, s);
                if section_ids_unique(all) {
                    assert forall|k: int| 0 <= k < before.len() implies (#[trigger] before[k]).id()
                        != s.id() by {
                        assert(all[k] == before[k]);
                    }
                }
                n = n + 1;
            }
            r.insert_section(s);
            proof {
                assert(rest@ =~= all.subrange(n, all.len() as int));
            }
        }
        proof {
            assert(all.subrange(0, n) =~= all);
        }
        r
    }

    /// Replaces the section with the id of `section`, in its place, or
    /// appends it when there is none.
    fn insert_section(&mut self, section: SectionManifest)
        requires
            old(self).wf(),
            section.wf(),
        ensures
            final(self).wf(),
            final(self).flags() == old(self).flags(),
            !has_section(old(self)@, section.id()) ==> final(self)@ == old(self)@.push(section),
            has_section(old(self)@, section.id()) ==> final(self)@ == old(self)@.update(
                section_index(old(self)@, section.id()),
                section,
            ),
            forall|id: Seq<char>| #[trigger]
                has_section(final(self)@, id) <==> (has_section(old(self)@, id) || id == section.id()),
    {
        let ghost before = self.setting_sections@;
        let ghost key = section.id();
        match self.find(section.section_id()) {
            Some(i) => {
                proof {
                    lemma_section_index(before, key, i as int);
                }
                proof {
                    lemma_update_section(before, i as int, section);
                }
                self.setting_sections[i] = section;
            },
            None => {
                proof {
                    lemma_push_section(before, section);
                }
                self.setting_sections.push(section);
            },
        }
    }

    fn find(&self, section_id: &str) -> (r: Option<usize>)
        requires
            self.wf(),
        ensures
            r matches Some(i) ==> i < self@.len() && self@[i as int].id() == section_id@ && section_index(self@, section_id@) == i,
            r is None ==> !has_section(self@, section_id@),
    {
        let key = String::from_str(section_id);
        let mut i: usize = 0;
        while i < self.setting_sections.len()
            invariant
                self.wf(),
                i <= self.setting_sections@.len(),
                key@ == section_id@,
                forall|j: int| 0 <= j < i ==> (#[trigger] self.setting_sections@[j]).id() != section_id@,
            decreases self.setting_sections@.len() - i,
        {
            if *self.setting_sections[i].section_id() == key {
                proof {
                    lemma_section_index(self@, section_id@, i as int);
                }
                return Some(i);
            }
            i += 1;
        }
        None
    }

    pub fn auto_start(&self) -> (r: bool)
        ensures
            r == self.flags().0,
    {
        self.auto_start
    }

    pub fn restart_on_crash(&self) -> (r: bool)
        ensures
            r == self.flags().1,
    {
        self.restart_on_crash
    }

    pub fn start_on_connection(&self) -> (r: bool)
        ensures
            r == self.flags().2,
    {
        self.start_on_connection
    }

    pub fn timeout_last_left(&self) -> (r: bool)
        ensures
            r == self.flags().3,
    {
        self.timeout_last_left
    }

    /// The section named `id`, if any.
    pub open spec fn get_section_spec(&self, id: Seq<char>) -> Option<SectionManifest> {
        if has_section(self@, id) {
            Some(self@[section_index(self@, id)])
        } else {
            None
        }
    }

    /// The section named `section_id`, if any.
    pub fn get_section(&self, section_id: &str) -> (r: Option<&SectionManifest>)
        requires
            self.wf(),
        ensures
            r is None <==> !has_section(self@, section_id@),
            r matches Some(s) ==> *s == self@[section_index(self@, section_id@)] && s.id() == section_id@,
    {
        match self.find(section_id) {
            Some(i) => Some(&self.setting_sections[i]),
            None => None,
        }
    }

    /// The setting named `setting_id` in the section named `section_id`.
    pub fn get_setting(&self, section_id: &str, setting_id: &str) -> (r: Option<&SettingManifest>)
        requires
            self.wf(),
        ensures
            r is None <==> !(has_section(self@, section_id@) && has_setting(
                self@[section_index(self@, section_id@)]@,
                setting_id@,
            )),
            r matches Some(s) ==> s.setting_id@ == setting_id@ && self@[section_index(
                self@,
                section_id@,
            )]@.contains(*s),
    {
        match self.find(section_id) {
            Some(i) => self.setting_sections[i].get_setting(setting_id),
            None => None,
        }
    }

    /// All sections, in their stored order.
    pub fn get_all_sections(&self) -> (r: &Vec<SectionManifest>)
        ensures
            r@ == self@,
    {
        &self.setting_sections
    }

    /// Sets the value of a setting as `SettingManifest::set_optional_value`
    /// does.
    pub fn set_setting_value(
        &mut self,
        section_id: &str,
        setting_id: &str,
        value: Option<ConfigurableValue>,
    ) -> (r: Result<(), Error>)
        requires
            old(self).wf(),
        ensures
            final(self).wf(),
            final(self).flags() == old(self).flags(),
            !has_section(old(self)@, section_id@) ==> r == Err::<(), Error>(Error::SectionNotFound)
                && final(self)@ == old(self)@,
            has_section(old(self)@, section_id@) ==> {
                let i = section_index(old(self)@, section_id@);
                &&& only_section_changed(old(self)@, final(self)@, i)
                &&& optional_update_is(old(self)@[i]@, final(self)@[i]@, setting_id@, value, r)
            },
    {
        match self.find(section_id) {
            Some(i) => {
                let ghost before = self.setting_sections@;
                let r = self.setting_sections[i].set_setting_value(setting_id, value);
                proof {
                    self.lemma_wf_after_change(before, i as int);
                }
                r
            },
            None => Err(Error::SectionNotFound),
        }
    }

    /// Replaces a setting of the section named `section_id` as
    /// `SectionManifest::set_setting` does; the setting is found by its own
    /// id, which `setting_id` names too.
    pub fn set_setting(&mut self, section_id: &str, setting_id: &str, setting: SettingManifest) -> (r:
        Result<(), Error>)
        requires
            old(self).wf(),
        ensures
            final(self).wf(),
            final(self).flags() == old(self).flags(),
            !has_section(old(self)@, section_id@) ==> r == Err::<(), Error>(Error::SectionNotFound)
                && final(self)@ == old(self)@,
            has_section(old(self)@, section_id@) ==> {
                let i = section_index(old(self)@, section_id@);
                &&& only_section_changed(old(self)@, final(self)@, i)
                &&& replacement_is(old(self)@[i]@, final(self)@[i]@, setting, r)
            },
    {
        match self.find(section_id) {
            Some(i) => {
                let ghost before = self.setting_sections@;
                let r = self.setting_sections[i].set_setting(setting);
                proof {
                    self.lemma_wf_after_change(before, i as int);
                }
                r
            },
            None => Err(Error::SectionNotFound),
        }
    }

    /// Adds or replaces a setting of the section named `section_id` as
    /// `SectionManifest::insert_setting` does.
    pub fn insert_setting(&mut self, section_id: &str, setting: SettingManifest) -> (r: Result<
        (),
        Error,
    >)
        requires
            old(self).wf(),
        ensures
            final(self).wf(),
            final(self).flags() == old(self).flags(),
            !has_section(old(self)@, section_id@) ==> r == Err::<(), Error>(Error::SectionNotFound)
                && final(self)@ == old(self)@,
            has_section(old(self)@, section_id@) ==> {
                let i = section_index(old(self)@, section_id@);
                let old_s = old(self)@[i]@;
                &&& r is Ok
                &&& only_section_changed(old(self)@, final(self)@, i)
                &&& !has_setting(old_s, setting.setting_id@) ==> final(self)@[i]@ == old_s.push(setting)
                &&& has_setting(old_s, setting.setting_id@) ==> final(self)@[i]@ == old_s.update(
                    setting_index(old_s, setting.setting_id@),
                    setting,
                )
            },
    {
        match self.find(section_id) {
            Some(i) => {
                let ghost before = self.setting_sections@;
                self.setting_sections[i].insert_setting(setting);
                proof {
                    self.lemma_wf_after_change(before, i as int);
                }
                Ok(())
            },
            None => Err(Error::SectionNotFound),
        }
    }

    /// Flips whether a setting can change, giving back its former flag;
    /// `None` when the section or the setting is missing.
    pub fn set_setting_mut(&mut self, section_id: &str, setting_id: &str, is_mutable: bool) -> (r:
        Option<bool>)
        requires
            old(self).wf(),
        ensures
            final(self).wf(),
            final(self).flags() == old(self).flags(),
            !has_section(old(self)@, section_id@) ==> r is None && final(self)@ == old(self)@,
            has_section(old(self)@, section_id@) ==> {
                let i = section_index(old(self)@, section_id@);
                &&& only_section_changed(old(self)@, final(self)@, i)
                &&& mutability_update_is(old(self)@[i]@, final(self)@[i]@, setting_id@, is_mutable, r)
            },
    {
        match self.find(section_id) {
            Some(i) => {
                let ghost before = self.setting_sections@;
                let r = self.setting_sections[i].set_setting_mut(setting_id, is_mutable);
                proof {
                    self.lemma_wf_after_change(before, i as int);
                }
                r
            },
            None => None,
        }
    }

    /// Sets the value of a setting as `SettingManifest::set_value` does.
    pub fn update_setting_value(
        &mut self,
        section_id: &str,
        setting_id: &str,
        value: ConfigurableValue,
    ) -> (r: Result<(), Error>)
        requires
            old(self).wf(),
        ensures
            final(self).wf(),
            final(self).flags() == old(self).flags(),
            !has_section(old(self)@, section_id@) ==> r == Err::<(), Error>(Error::SectionNotFound)
                && final(self)@ == old(self)@,
            has_section(old(self)@, section_id@) ==> {
                let i = section_index(old(self)@, section_id@);
                &&& only_section_changed(old(self)@, final(self)@, i)
                &&& value_update_is(old(self)@[i]@, final(self)@[i]@, setting_id@, value, r)
            },
    {
        match self.find(section_id) {
            Some(i) => {
                let ghost before = self.setting_sections@;
                let r = self.setting_sections[i].update_setting(setting_id, value);
                proof {
                    self.lemma_wf_after_change(before, i as int);
                }
                r
            },
            None => Err(Error::SectionNotFound),
        }
    }

    proof fn lemma_wf_after_change(&self, before: Seq<SectionManifest>, i: int)
        requires
            section_ids_unique(before),
            forall|j: int| 0 <= j < before.len() ==> (#[trigger] before[j]).wf(),
            0 <= i < before.len(),
            self.setting_sections@.len() == before.len(),
            forall|j: int| 0 <= j < before.len() && j != i ==> self.setting_sections@[j] == before[j],
            self.setting_sections@[i].id() == before[i].id(),
            self.setting_sections@[i].wf(),
        ensures
            self.wf(),
    {
        let u = self.setting_sections@;
        assert forall|a: int, b: int|
            0 <= a < u.len() && 0 <= b < u.len() && a != b implies (#[trigger] u[a]).id() != (
            #[trigger] u[b]).id() by {
            assert(u[a].id() == before[a].id());
            assert(u[b].id() == before[b].id());
        }
        assert forall|j: int| 0 <= j < u.len() implies (#[trigger] u[j]).wf() by {
            if j != i {
                assert(u[j] == before[j]);
            }
        }
    }

    /// Checks every candidate section and setting against this manifest
    /// without changing anything, so that a bulk update can be applied whole
    /// or not at all; the first failing entry gives the error.
    pub fn validate_manifest(&self, value: &ManifestValue) -> (r: Result<(), Error>)
        requires
            self.wf(),
        ensures
            r == manifest_verdict(self@, value.setting_sections@),
    {
        let ghost entries = value.setting_sections@;
        assert(entries.subrange(0, entries.len() as int) =~= entries);
        let mut k: usize = 0;
        while k < value.setting_sections.len()
            invariant
                k <= entries.len(),
                entries == value.setting_sections@,
                self.wf(),
                manifest_verdict(self@, entries) == manifest_verdict(
                    self@,
                    entries.subrange(k as int, entries.len() as int),
                ),
            decreases entries.len() - k,
        {
            let entry = &value.setting_sections[k];
            let verdict = match self.find(entry.0.as_str()) {
                Some(i) => self.setting_sections[i].validate_section(&entry.1),
                None => Err(Error::SectionNotFound),
            };
            let ghost rest = entries.subrange(k as int, entries.len() as int);
            proof {
                assert(rest[0] == entries[k as int]);
                assert(rest.drop_first() =~= entries.subrange(k + 1, entries.len() as int));
            }
            match verdict {
                Err(e) => {
                    return Err(e);
                },
                Ok(()) => {},
            }
            k += 1;
        }
        proof {
            assert(entries.subrange(k as int, entries.len() as int).len() == 0);
        }
        Ok(())
    }
}

} // verus!
