//! Whether a project carries branding that is worth an end card.

use vstd::prelude::*;
use crate::models::Project;
use crate::paths::{look, seen};
use crate::text::{
    blank, is_blank, is_space, law_trim_around, lower, lower_of, opt_str, opt_text, same, trim,
    trimmed,
};

verus! {

/// The name is one that an app has before anyone named it.
pub open spec fn is_placeholder(name: Seq<char>) -> bool {
    lower(name) == "my app"@ || lower(name) == "app name"@ || lower(name) == "your app"@ || lower(
        name,
    ) == "test"@
}

/// The project has a name of its own: not blank and no placeholder.
pub open spec fn is_named(brand_name: Option<Seq<char>>) -> bool {
    match brand_name {
        Some(n) => !is_blank(n) && !is_placeholder(trimmed(n)),
        None => false,
    }
}

/// The project has a logo. `present` is whether the file is there.
pub open spec fn has_logo(logo: Option<Seq<char>>, present: bool) -> bool {
    match logo {
        Some(p) => !is_blank(p) && present,
        None => false,
    }
}

/// The project carries real branding: a name of its own and a logo that is
/// there.
pub open spec fn really_branded(brand_name: Option<Seq<char>>, logo: Option<Seq<char>>, present: bool) -> bool {
    is_named(brand_name) && has_logo(logo, present)
}

/// `present` is what the disk answers when asked for the logo, if there is one to
/// ask for.
pub open spec fn logo_seen(logo: Option<Seq<char>>, present: bool) -> bool {
    match logo {
        Some(p) => seen(p, present),
        None => true,
    }
}

/// Whether the project's name is its own.
fn name_is_own(brand_name: &Option<String>) -> (res: bool)
    ensures
        res == is_named(opt_text(*brand_name)),
{
    match brand_name {
        Some(n) => {
            let name = trim(n.as_str());
            if name.as_str().is_empty() {
                return false;
            }
            let small = lower_of(name.as_str());
            !(same(small.as_str(), "my app") || same(small.as_str(), "app name") || same(
                small.as_str(),
                "your app",
            ) || same(small.as_str(), "test"))
        },
        None => false,
    }
}

/// Whether the project carries real branding, given whether its logo is there.
pub fn branding_is_real(project: &Project, logo_present: bool) -> (res: bool)
    ensures
        res == really_branded(
            opt_text(project.brand_name),
            opt_text(project.brand_logo_path),
            logo_present,
        ),
{
    let named = name_is_own(&project.brand_name);
    let logo = match &project.brand_logo_path {
        Some(p) => !blank(p.as_str()) && logo_present,
        None => false,
    };
    named && logo
}

/// True when the project carries real branding the user actually supplied.
///
/// An end card is only wanted when there is something to advertise. A bare name
/// may be a placeholder that a test run left behind, so both a real name and a
/// logo are required.
pub fn has_real_branding(project: &Project) -> (res: bool)
    ensures
        exists|present: bool|
            logo_seen(opt_text(project.brand_logo_path), present) && res == #[trigger] really_branded(
                opt_text(project.brand_name),
                opt_text(project.brand_logo_path),
                present,
            ),
{
    let present = match &project.brand_logo_path {
        Some(p) => look(p.as_str()),
        None => false,
    };
    branding_is_real(project, present)
}

/// Outros are switched on for batches.
pub open spec fn outros_on(setting: Option<Seq<char>>) -> bool {
    setting == Some("1"@)
}

/// Whether the *automated* pipeline should append an end card.
///
/// It should not: an end card is an advert, and whether a clip carries one is
/// decided by the user clip by clip. The setting `1` opts the batch back in.
pub fn batch_should_add_outro(project: &Project, setting: Option<&str>) -> (res: bool)
    ensures
        !outros_on(opt_str(setting)) ==> !res,
        outros_on(opt_str(setting)) ==> exists|present: bool|
            logo_seen(opt_text(project.brand_logo_path), present) && res == #[trigger] really_branded(
                opt_text(project.brand_name),
                opt_text(project.brand_logo_path),
                present,
            ),
        opt_str(setting) != Some("1"@) ==> !res,
        opt_str(setting) == Some("1"@) ==> exists|present: bool|
            logo_seen(opt_text(project.brand_logo_path), present) && res == #[trigger] really_branded(
                opt_text(project.brand_name),
                opt_text(project.brand_logo_path),
                present,
            ),
{
    match setting {
        Some(v) => same(v, "1") && has_real_branding(project),
        None => false,
    }
}

/// A placeholder is no branding, whatever the logo; neither is a name without a
/// logo.
pub proof fn law_branding(brand_name: Option<Seq<char>>, logo: Option<Seq<char>>, present: bool)
    ensures
        brand_name is None ==> !really_branded(brand_name, logo, present),
        brand_name is Some && is_placeholder(trimmed(brand_name->0)) ==> !really_branded(
            brand_name,
            logo,
            present,
        ),
        logo is None ==> !really_branded(brand_name, logo, present),
        logo is Some && is_blank(logo->0) ==> !really_branded(brand_name, logo, present),
        !really_branded(brand_name, logo, false),
{
}

/// A project is branded exactly where its name is neither blank nor one of the
/// usual placeholders, in any case and with any white space around it, and its
/// logo is named and there.
pub proof fn law_really_branded(name: Seq<char>, logo: Seq<char>, present: bool)
    ensures
        really_branded(Some(name), Some(logo), present) <==> {
            &&& !is_blank(name)
            &&& lower(trimmed(name)) != "my app"@
            &&& lower(trimmed(name)) != "app name"@
            &&& lower(trimmed(name)) != "your app"@
            &&& lower(trimmed(name)) != "test"@
            &&& !is_blank(logo)
            &&& present
        },
        is_named(Some(name)) <==> really_branded(Some(name), Some(seq!['x']), true),
        has_logo(Some(logo), present) <==> !is_blank(logo) && present,
        !is_named(None) && !has_logo(None, present),
{
    let x = seq!['x'];
    assert(!is_space('x'));
    law_trim_around(Seq::empty(), x, Seq::empty());
}

/// Nothing but a one switches outros on for batches, and a logo that is named was
/// looked for.
pub proof fn law_outros_on(setting: Seq<char>, path: Seq<char>, present: bool)
    ensures
        outros_on(Some(setting)) <==> setting == seq!['1'],
        !outros_on(None),
        logo_seen(Some(path), present) == seen(path, present),
        logo_seen(None, present),
{
    reveal_strlit("1");
    assert("1"@ =~= seq!['1']);
}

} // verus!
