use vstd::prelude::*;

verus! {

/// Configuration of the runtime's one window, as plain values.
#[derive(Debug, Clone)]
pub struct CinderWindowAttributes {
    /// The window title; the stock name is used where none is given.
    pub title: Option<String>,
}

/// What an application of the runtime is created from: the window's
/// attributes and an optional path to an icon file.
#[derive(Debug, Clone)]
pub struct CinderApplicationOptions {
    pub window: CinderWindowAttributes,
    pub icon: Option<String>,
}

impl CinderWindowAttributes {
    /// The title the window will carry: the configured one where it is set,
    /// else the stock name.
    pub fn resolved_title(&self) -> (t: String)
        ensures
            t@ == match self.title {
                Some(s) => s@,
                None => "Cinder Application"@,
            },
    {
        match &self.title {
            Some(s) => s.clone(),
            None => String::from_str("Cinder Application"),
        }
    }
}

} // verus!
