//! The INI configuration of the `configparser` crate, as the library fills it.
use configparser::ini::Ini;
use vstd::prelude::*;

verus! {

/// `configparser::ini::Ini`, carried through verified code.
#[verifier::external_type_specification]
#[verifier::external_body]
pub struct ExIni(Ini);

/// The values of an `Ini`, keyed by (section, key) as the map stores them.
pub uninterp spec fn ini_entries(ini: Ini) -> Map<(Seq<char>, Seq<char>), Option<Seq<char>>>;

/// Every character is ASCII and none is an upper-case letter: such a name is
/// stored as given by a case-insensitive `Ini` as well as by a case-sensitive one.
pub open spec fn stored_as_given(s: Seq<char>) -> bool {
    forall|i: int| 0 <= i < s.len() ==> (s[i] as int) < 128 && !('A' <= #[trigger] s[i] && s[i] <= 'Z')
}

/// `Ini::set(section, key, Some(value))`: the key of the section now holds the
/// value, created if it was missing; other entries are unchanged. The source
/// lower-cases names only when they hold upper-case or non-ASCII characters,
/// which `requires` rules out.
#[verifier::external_body]
pub(crate) fn ini_set(ini: &mut Ini, section: &str, key: &str, value: String)
    requires
        stored_as_given(section@),
        stored_as_given(key@),
    ensures
        ini_entries(*final(ini)) == ini_entries(*old(ini)).insert((section@, key@), Some(value@)),
{
    ini.set(section, key, Some(value));
}

/// The entries after each (key, value) of `settings` is set in `section`, in order.
pub open spec fn settings_applied(
    entries: Map<(Seq<char>, Seq<char>), Option<Seq<char>>>,
    section: Seq<char>,
    settings: Seq<(Seq<char>, Seq<char>)>,
) -> Map<(Seq<char>, Seq<char>), Option<Seq<char>>>
    decreases settings.len(),
{
    if settings.len() == 0 {
        entries
    } else {
        settings_applied(entries, section, settings.drop_last()).insert(
            (section, settings.last().0),
            Some(settings.last().1),
        )
    }
}

/// The contents of a list of (key, value) strings.
pub open spec fn pairs_view(v: Seq<(String, String)>) -> Seq<(Seq<char>, Seq<char>)> {
    v.map_values(|p: (String, String)| (p.0@, p.1@))
}

/// Sets every (key, value) of `settings` in `section`, in order.
pub fn apply_settings(ini: &mut Ini, section: &str, settings: &Vec<(String, String)>)
    requires
        stored_as_given(section@),
        keys_stored(settings@),
    ensures
        ini_entries(*final(ini)) == settings_applied(ini_entries(*old(ini)), section@, pairs_view(settings@)),
{
    let ghost start = ini_entries(*ini);
    let ghost pv = pairs_view(settings@);
    let mut i: usize = 0;
    while i < settings.len()
        invariant
            0 <= i <= settings.len(),
            pv == pairs_view(settings@),
            stored_as_given(section@),
            forall|k: int| 0 <= k < settings.len() ==> stored_as_given(#[trigger] settings@[k].0@),
            ini_entries(*ini) == settings_applied(start, section@, pv.take(i as int)),
        decreases settings.len() - i,
    {
        assert(pv.take(i + 1).drop_last() =~= pv.take(i as int));
        let key = settings[i].0.as_str();
        let value = String::from_str(settings[i].1.as_str());
        ini_set(ini, section, key, value);
        i = i + 1;
    }
    assert(pv.take(settings.len() as int) =~= pv);
}

/// Applying two lists of settings in turn applies their concatenation.
pub proof fn lemma_settings_applied_concat(
    entries: Map<(Seq<char>, Seq<char>), Option<Seq<char>>>,
    section: Seq<char>,
    a: Seq<(Seq<char>, Seq<char>)>,
    b: Seq<(Seq<char>, Seq<char>)>,
)
    ensures
        settings_applied(settings_applied(entries, section, a), section, b) == settings_applied(entries, section, a + b),
    decreases b.len(),
{
    if b.len() == 0 {
        assert(a + b =~= a);
    } else {
        lemma_settings_applied_concat(entries, section, a, b.drop_last());
        assert((a + b).drop_last() =~= a + b.drop_last());
        assert((a + b).last() == b.last());
    }
}

/// Every key of a list of settings can be set as given.
pub open spec fn keys_stored(v: Seq<(String, String)>) -> bool {
    forall|i: int| 0 <= i < v.len() ==> stored_as_given(#[trigger] v[i].0@)
}

/// Appends the setting `key = value` to a list of settings.
pub fn push_setting(v: &mut Vec<(String, String)>, key: &str, value: String)
    requires
        keys_stored(old(v)@),
        stored_as_given(key@),
    ensures
        keys_stored(final(v)@),
        pairs_view(final(v)@) == pairs_view(old(v)@).push((key@, value@)),
{
    let ghost before = v@;
    v.push((String::from_str(key), value));
    proof {
        assert(pairs_view(v@) =~= pairs_view(before).push((key@, value@)));
        assert forall|i: int| 0 <= i < v@.len() implies stored_as_given(#[trigger] v@[i].0@) by {
            if i < before.len() {
                assert(v@[i] == before[i]);
            }
        }
    }
}

/// The keys a list of settings sets.
pub open spec fn setting_keys(settings: Seq<(Seq<char>, Seq<char>)>) -> Seq<Seq<char>> {
    settings.map_values(|p: (Seq<char>, Seq<char>)| p.0)
}

/// Settings leave alone every entry they do not name: entries of other
/// sections, and keys of the section that no setting has.
pub proof fn lemma_settings_applied_frame(
    entries: Map<(Seq<char>, Seq<char>), Option<Seq<char>>>,
    section: Seq<char>,
    settings: Seq<(Seq<char>, Seq<char>)>,
    other: (Seq<char>, Seq<char>),
)
    requires
        other.0 != section || !setting_keys(settings).contains(other.1),
    ensures
        settings_applied(entries, section, settings).contains_key(other) == entries.contains_key(other),
        entries.contains_key(other) ==> settings_applied(entries, section, settings)[other] == entries[other],
    decreases settings.len(),
{
    if settings.len() > 0 {
        assert(setting_keys(settings.drop_last()) =~= setting_keys(settings).drop_last());
        if other.0 == section {
            assert(setting_keys(settings).last() == settings.last().0);
            assert(settings.last().0 != other.1) by {
                assert(setting_keys(settings)[settings.len() - 1] == settings.last().0);
            }
            assert(!setting_keys(settings.drop_last()).contains(other.1)) by {
                if setting_keys(settings.drop_last()).contains(other.1) {
                    let i = choose|i: int| 0 <= i < setting_keys(settings.drop_last()).len() && setting_keys(settings.drop_last())[i] == other.1;
                    assert(setting_keys(settings)[i] == other.1);
                }
            }
        }
        lemma_settings_applied_frame(entries, section, settings.drop_last(), other);
    }
}

/// A setting read back gives the value of the last setting of its key: for
/// a key set at position `i` and at no later position, the section holds
/// that setting's value.
pub proof fn lemma_settings_applied_last_wins(
    entries: Map<(Seq<char>, Seq<char>), Option<Seq<char>>>,
    section: Seq<char>,
    settings: Seq<(Seq<char>, Seq<char>)>,
    i: int,
)
    requires
        0 <= i < settings.len(),
        forall|j: int| i < j < settings.len() ==> #[trigger] settings[j].0 != settings[i].0,
    ensures
        settings_applied(entries, section, settings)[(section, settings[i].0)] == Some(settings[i].1),
        settings_applied(entries, section, settings).contains_key((section, settings[i].0)),
    decreases settings.len(),
{
    if i < settings.len() - 1 {
        assert(settings.last() == settings[settings.len() - 1]);
        lemma_settings_applied_last_wins(entries, section, settings.drop_last(), i);
    }
}

} // verus!
