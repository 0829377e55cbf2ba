//! Which of the bundled translations the window uses.

use vstd::prelude::*;

use crate::config::LanguageChoice;
use crate::text::{ascii_lower, chars_of, to_ascii_lower};

verus! {

/// Calls `sys_locale::get_locale`: the system's preferred locale as a BCP 47 language tag, or
/// `None` if it couldn't be obtained. It depends on the machine's settings, so nothing is stated
/// of it.
#[verifier::external_body]
fn system_locale() -> Option<String> {
    sys_locale::get_locale()
}

/// Whether `locale`, in any case, starts with `de`.
pub open spec fn is_german(locale: Seq<char>) -> bool {
    locale.len() >= 2 && ascii_lower(locale[0]) == 'd' && ascii_lower(locale[1]) == 'e'
}

/// The translation for the language choice `choice`, given the system's locale (`None` if it is
/// not known): German for a German system, English otherwise.
pub fn language_tag_for(choice: LanguageChoice, locale: Option<&str>) -> (r: &'static str)
    ensures
        r@ == match choice {
            LanguageChoice::English => "en"@,
            LanguageChoice::German => "de"@,
            LanguageChoice::System => match locale {
                Some(l) => if is_german(l@) {
                    "de"@
                } else {
                    "en"@
                },
                None => "en"@,
            },
        },
{
    match choice {
        LanguageChoice::English => "en",
        LanguageChoice::German => "de",
        LanguageChoice::System => match locale {
            Some(l) => {
                let c = chars_of(l);
                if c.len() >= 2 && to_ascii_lower(c[0]) == 'd' && to_ascii_lower(c[1]) == 'e' {
                    "de"
                } else {
                    "en"
                }
            },
            None => "en",
        },
    }
}

/// The translation the window uses for `choice`, asking the system for its locale when the choice
/// follows it.
pub fn language_tag(choice: LanguageChoice) -> (r: &'static str)
    ensures
        choice == LanguageChoice::English ==> r@ == "en"@,
        choice == LanguageChoice::German ==> r@ == "de"@,
        choice == LanguageChoice::System ==> r@ == "en"@ || r@ == "de"@,
{
    match choice {
        LanguageChoice::System => {
            let locale = system_locale();
            match locale {
                Some(l) => language_tag_for(choice, Some(l.as_str())),
                None => language_tag_for(choice, None),
            }
        },
        _ => language_tag_for(choice, None),
    }
}

} // verus!
