//! Choosing a profile of a configuration file.
use vstd::prelude::*;

use crate::config::settings::{Config, ConfigFile};
use crate::config::merge;
use crate::sorting;
use crate::string_map::StringMap;
use crate::text;

verus! {

/// A profile that the configuration file does not have, and those it has.
#[derive(Debug)]
pub struct UnknownProfile {
    pub name: String,
    /// The names of the profiles there are, in order, or `none`.
    pub available: String,
}

/// Whether `listed` lists the names of the profiles in order, or says `none`.
pub open spec fn lists_profiles(
    listed: Seq<char>,
    profiles: Option<StringMap<Config>>,
) -> bool {
    if profiles is None || profiles->0@ == Map::<Seq<char>, Config>::empty() {
        listed == "none"@
    } else {
        exists|names: Seq<Seq<char>>|
            {
                &&& #[trigger] sorting::in_order(names)
                &&& names.no_duplicates()
                &&& forall|name: Seq<char>| #[trigger]
                    names.contains(name) <==> profiles->0@.contains_key(name)
                &&& listed == text::joined(names, ", "@)
            }
    }
}

impl UnknownProfile {
    /// What to tell the user.
    pub fn message(&self) -> (message: String)
        ensures
            message@ == "Profile '"@ + self.name@ + "' not found. Available profiles: "@
                + self.available@,
    {
        let mut message = "Profile '".to_string();
        message.append(self.name.as_str());
        message.append("' not found. Available profiles: ");
        message.append(self.available.as_str());
        message
    }
}

/// The names of the profiles, in order, or `none`.
fn list_profiles(profiles: &Option<StringMap<Config>>) -> (listed: String)
    ensures
        lists_profiles(listed@, *profiles),
{
    match profiles {
        None => "none".to_string(),
        Some(profiles) => {
            let keys = profiles.keys();
            let ghost unsorted = text::texts(keys@);
            if keys.len() == 0 {
                proof {
                    assert forall|name: Seq<char>| !(#[trigger] profiles@.contains_key(name)) by {
                        assert(!unsorted.contains(name));
                    }
                    assert(profiles@ =~= Map::<Seq<char>, Config>::empty());
                }
                return "none".to_string();
            }
            assert(profiles@.contains_key(unsorted[0])) by {
                assert(unsorted.contains(unsorted[0]));
            }
            let sorted = sorting::sort_names(keys);
            proof {
                let names = text::texts(sorted@);
                names.to_multiset_ensures();
                unsorted.to_multiset_ensures();
                assert forall|name: Seq<char>| #[trigger]
                    names.contains(name) <==> profiles@.contains_key(name) by {
                    assert(names.contains(name) <==> names.to_multiset().count(name) > 0);
                    assert(unsorted.contains(name) <==> unsorted.to_multiset().count(name) > 0);
                }
                unsorted.lemma_multiset_has_no_duplicates();
                names.lemma_multiset_has_no_duplicates_conv();
                assert(sorting::in_order(names));
            }
            text::join(sorted.as_slice(), ", ")
        },
    }
}

/// The configuration of a file under a profile: the profile's settings laid
/// over the top level, or the top level where no profile is asked for. A
/// profile that the file does not have is refused.
pub fn apply_profile(
    config: ConfigFile,
    profile: Option<&str>,
) -> (result: Result<Config, UnknownProfile>)
    ensures
        match profile {
            None => result == Ok::<Config, UnknownProfile>(config.base),
            Some(name) => if config.profiles is Some && config.profiles->0@.contains_key(name@) {
                result is Ok && merge::merges(
                    config.base,
                    config.profiles->0@[name@],
                    result->Ok_0,
                )
            } else {
                result is Err && result->Err_0.name@ == name@ && lists_profiles(
                    result->Err_0.available@,
                    config.profiles,
                )
            },
        },
        result is Err ==> {
            &&& profile is Some && result->Err_0.name@ == profile->0@
            &&& config.profiles is None ==> result->Err_0.available@ == "none"@
            &&& config.profiles is Some ==> !config.profiles->0@.contains_key(profile->0@)
        },
        result is Ok && profile is Some ==> config.profiles is Some
            && config.profiles->0@.contains_key(profile->0@),
{
    let name = match profile {
        None => return Ok(config.base),
        Some(name) => name,
    };
    let ConfigFile { base, profiles } = config;
    let mut profiles = profiles;
    let found = match &mut profiles {
        Some(profiles) => profiles.remove(name),
        None => None,
    };
    match found {
        Some(override_cfg) => Ok(merge::merge_config(base, override_cfg)),
        None => {
            let available = list_profiles(&profiles);
            proof {
                if profiles is Some {
                    assert(profiles->0@ =~= config.profiles->0@);
                }
            }
            Err(UnknownProfile { name: name.to_string(), available })
        },
    }
}

/// The list of profiles names each profile of a file once, in order, and nothing
/// else; without profiles it says `none`.
pub proof fn law_profiles_are_listed_in_order(
    listed: Seq<char>,
    profiles: StringMap<Config>,
    name: Seq<char>,
)
    requires
        lists_profiles(listed, Some(profiles)),
    ensures
        profiles@.dom() == Set::<Seq<char>>::empty() ==> listed == "none"@,
        profiles@.contains_key(name) ==> exists|names: Seq<Seq<char>>|
            {
                &&& listed == #[trigger] text::joined(names, ", "@)
                &&& names.no_duplicates()
                &&& names.contains(name)
                &&& forall|i: int, j: int|
                    0 <= i < j < names.len() ==> sorting::lex_le(
                        #[trigger] names[i],
                        #[trigger] names[j],
                    )
                &&& forall|i: int|
                    0 <= i < names.len() ==> profiles@.contains_key(#[trigger] names[i])
            },
{
    if profiles@.dom() == Set::<Seq<char>>::empty() {
        assert(profiles@ =~= Map::<Seq<char>, Config>::empty());
    }
    if profiles@.contains_key(name) {
        let names = choose|names: Seq<Seq<char>>|
            {
                &&& #[trigger] sorting::in_order(names)
                &&& names.no_duplicates()
                &&& forall|name: Seq<char>| #[trigger]
                    names.contains(name) <==> profiles@.contains_key(name)
                &&& listed == text::joined(names, ", "@)
            };
        assert forall|i: int| 0 <= i < names.len() implies profiles@.contains_key(
            #[trigger] names[i],
        ) by {
            assert(names.contains(names[i]));
        }
        assert(listed == text::joined(names, ", "@));
    }
}

} // verus!
