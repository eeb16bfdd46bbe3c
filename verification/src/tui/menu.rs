//! Main-menu state: the screens and the menu entries.

use vstd::prelude::*;
use crate::i18n::{Language, Strings};

verus! {

/// The screens of the terminal interface.
#[derive(Debug, Clone, Copy, PartialEq, Eq, Structural)]
pub enum Screen {
    /// The main menu.
    MainMenu,
    /// The configuration wizard.
    ConfigWizard,
    /// The processing progress view.
    Progress,
    /// The result summary.
    Summary,
    /// The exit confirmation.
    Exit,
}

/// The main menu's entries.
#[derive(Debug, Clone, Copy, PartialEq, Eq, Structural)]
pub enum MenuItem {
    /// Run with directly entered parameters.
    RunDirect,
    /// Run with a selected configuration.
    RunConfig,
    /// Create a configuration.
    CreateConfig,
    /// Exit the program.
    Exit,
}

impl MenuItem {
    /// The entry's display text.
    pub fn label(&self, lang: Language) -> (r: &'static str)
        ensures
            lang == Language::English ==> r@ == match self {
                MenuItem::RunDirect => "[1] Run with directly input parameters"@,
                MenuItem::RunConfig => "[2] Run with selected configuration"@,
                MenuItem::CreateConfig => "[3] Create configuration"@,
                MenuItem::Exit => "[4] Exit program"@,
            },
    {
        match self {
            MenuItem::RunDirect => Strings::menu_option_run_direct(lang),
            MenuItem::RunConfig => Strings::menu_option_run_config(lang),
            MenuItem::CreateConfig => Strings::menu_option_create_config(lang),
            MenuItem::Exit => Strings::menu_option_exit(lang),
        }
    }

    /// All menu entries, in display order.
    pub fn iter() -> (r: Vec<MenuItem>)
        ensures
            r@ == seq![
                MenuItem::RunDirect,
                MenuItem::RunConfig,
                MenuItem::CreateConfig,
                MenuItem::Exit,
            ],
    {
        let v: Vec<MenuItem> = vec![
            MenuItem::RunDirect,
            MenuItem::RunConfig,
            MenuItem::CreateConfig,
            MenuItem::Exit,
        ];
        proof {
            assert(v@ =~= seq![
                MenuItem::RunDirect,
                MenuItem::RunConfig,
                MenuItem::CreateConfig,
                MenuItem::Exit,
            ]);
        }
        v
    }
}

} // verus!
