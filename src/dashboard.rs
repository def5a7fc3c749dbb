//! The content of the admin dashboard page.
use vstd::prelude::*;

verus! {

/// The labels of the admin dashboard and the name of the user it greets.
pub struct Dashboard<'a> {
    pub title: &'a str,
    pub welcome: &'a str,
    pub available_actions: &'a str,
    pub change_password: &'a str,
    pub logout: &'a str,
    pub username: String,
}

impl Dashboard<'static> {
    /// The dashboard that greets `username`.
    pub fn for_user(username: String) -> (r: Dashboard<'static>)
        ensures
            r.title@ == "Admin Dashboard"@,
            r.welcome@ == "Welcome"@,
            r.available_actions@ == "Available actions"@,
            r.change_password@ == "Change password"@,
            r.logout@ == "Logout"@,
            r.username@ == username@,
    {
        Dashboard {
            title: "Admin Dashboard",
            welcome: "Welcome",
            available_actions: "Available actions",
            change_password: "Change password",
            logout: "Logout",
            username,
        }
    }
}

} // verus!
