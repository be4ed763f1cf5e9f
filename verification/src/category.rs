//! The main categories under which a desktop shows an application.

use vstd::prelude::*;

verus! {

/// A main category of the desktop menu.
#[derive(Clone, Copy, Debug, PartialEq, Eq, Structural)]
pub enum Category {
    AudioVideo,
    Development,
    Education,
    Game,
    Graphics,
    Network,
    Office,
    Science,
    Settings,
    System,
    Utility,
}

/// The name of a category as it stands in a descriptor.
pub open spec fn category_name(category: Category) -> Seq<char> {
    match category {
        Category::AudioVideo => "AudioVideo"@,
        Category::Development => "Development"@,
        Category::Education => "Education"@,
        Category::Game => "Game"@,
        Category::Graphics => "Graphics"@,
        Category::Network => "Network"@,
        Category::Office => "Office"@,
        Category::Science => "Science"@,
        Category::Settings => "Settings"@,
        Category::System => "System"@,
        Category::Utility => "Utility"@,
    }
}

impl Category {
    /// The name of the category as it stands in a descriptor.
    pub fn as_str(&self) -> (r: &'static str)
        ensures
            r@ == category_name(*self),
    {
        match self {
            Category::AudioVideo => "AudioVideo",
            Category::Development => "Development",
            Category::Education => "Education",
            Category::Game => "Game",
            Category::Graphics => "Graphics",
            Category::Network => "Network",
            Category::Office => "Office",
            Category::Science => "Science",
            Category::Settings => "Settings",
            Category::System => "System",
            Category::Utility => "Utility",
        }
    }

    /// The name of the category as an owned text.
    pub fn to_string(&self) -> (r: String)
        ensures
            r@ == category_name(*self),
    {
        self.as_str().to_owned()
    }
}

} // verus!
