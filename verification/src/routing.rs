//! Which handler an interaction goes to.

use crate::settings::is_config_form;
use crate::text::{occurs_at, same_text};
use vstd::prelude::*;

verus! {

/// The kinds of interaction that the messaging side delivers.
#[derive(Clone, Copy, Debug, PartialEq, Eq, Structural)]
pub enum InteractionKind {
    /// A command was invoked; it comes with the command's name.
    Command,
    /// Suggestions are asked for while an option is typed; it comes with the command's
    /// name.
    Autocomplete,
    /// A form was submitted; it comes with the form's identifier.
    Modal,
    /// Anything else.
    Other,
}

/// Who handles an interaction.
#[derive(Clone, Copy, Debug, PartialEq, Eq, Structural)]
pub enum Route {
    Configure,
    Amazon,
    Stats,
    ConfigureSuggestions,
    ConfigureForm,
    Ignore,
}

/// The handler of an interaction of this kind and name.
pub open spec fn routed(kind: InteractionKind, name: Seq<char>) -> Route {
    match kind {
        InteractionKind::Command => if name == "configure"@ {
            Route::Configure
        } else if name == "amazon"@ {
            Route::Amazon
        } else if name == "stats"@ {
            Route::Stats
        } else {
            Route::Ignore
        },
        InteractionKind::Autocomplete => if name == "configure"@ {
            Route::ConfigureSuggestions
        } else {
            Route::Ignore
        },
        InteractionKind::Modal => if occurs_at(name, "config_modal_"@, 0) {
            Route::ConfigureForm
        } else {
            Route::Ignore
        },
        InteractionKind::Other => Route::Ignore,
    }
}

/// Finds the handler of an interaction.
pub fn route(kind: InteractionKind, name: &str) -> (to: Route)
    ensures
        to == routed(kind, name@),
{
    match kind {
        InteractionKind::Command => {
            if same_text(name, "configure") {
                Route::Configure
            } else if same_text(name, "amazon") {
                Route::Amazon
            } else if same_text(name, "stats") {
                Route::Stats
            } else {
                Route::Ignore
            }
        },
        InteractionKind::Autocomplete => {
            if same_text(name, "configure") {
                Route::ConfigureSuggestions
            } else {
                Route::Ignore
            }
        },
        InteractionKind::Modal => {
            if is_config_form(name) {
                Route::ConfigureForm
            } else {
                Route::Ignore
            }
        },
        InteractionKind::Other => Route::Ignore,
    }
}

} // verus!
