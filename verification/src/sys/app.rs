//! Applications and their windows.

use vstd::prelude::*;

use crate::sys::geometry::CGRect;
use crate::sys::window_server::WindowServerId;

verus! {

/// A process identifier.
#[allow(non_camel_case_types)]
pub type pid_t = i32;

/// What is known of an application.
#[derive(Debug)]
pub struct AppInfo {
    pub bundle_id: Option<String>,
    pub localized_name: Option<String>,
}

/// The characters of a text that may be missing.
pub open spec fn text_of(text: Option<String>) -> Option<Seq<char>> {
    match text {
        Some(s) => Some(s@),
        None => None,
    }
}

/// What an [`AppInfo`] says.
pub struct AppInfoView {
    pub bundle_id: Option<Seq<char>>,
    pub localized_name: Option<Seq<char>>,
}

impl View for AppInfo {
    type V = AppInfoView;

    open spec fn view(&self) -> AppInfoView {
        AppInfoView {
            bundle_id: text_of(self.bundle_id),
            localized_name: text_of(self.localized_name),
        }
    }
}

/// What is known of a window when it is first seen.
#[derive(Debug)]
pub struct WindowInfo {
    pub is_standard: bool,
    pub is_resizable: bool,
    pub title: String,
    pub frame: CGRect,
    /// The name that the window server gives the window, where it is known.
    pub sys_id: Option<WindowServerId>,
}

/// What a [`WindowInfo`] says.
pub struct WindowInfoView {
    pub is_standard: bool,
    pub is_resizable: bool,
    pub title: Seq<char>,
    pub frame: CGRect,
    pub sys_id: Option<WindowServerId>,
}

impl View for WindowInfo {
    type V = WindowInfoView;

    open spec fn view(&self) -> WindowInfoView {
        WindowInfoView {
            is_standard: self.is_standard,
            is_resizable: self.is_resizable,
            title: self.title@,
            frame: self.frame,
            sys_id: self.sys_id,
        }
    }
}

/// Whether two windows are described alike.
pub open spec fn same_window_info(a: WindowInfo, b: WindowInfo) -> bool {
    &&& a.is_standard == b.is_standard
    &&& a.is_resizable == b.is_resizable
    &&& a.title@ == b.title@
    &&& a.frame == b.frame
    &&& a.sys_id == b.sys_id
}

/// Whether two applications are described alike.
pub open spec fn same_app_info(a: AppInfo, b: AppInfo) -> bool {
    &&& a.bundle_id is Some == b.bundle_id is Some
    &&& a.bundle_id is Some ==> a.bundle_id->0@ == b.bundle_id->0@
    &&& a.localized_name is Some == b.localized_name is Some
    &&& a.localized_name is Some ==> a.localized_name->0@ == b.localized_name->0@
}

/// What a window or an application says leaves nothing out.
pub proof fn descriptions_leave_nothing_out(
    a: WindowInfo,
    b: WindowInfo,
    first: AppInfo,
    second: AppInfo,
)
    ensures
        a@ == b@ ==> same_window_info(a, b),
        first@ == second@ ==> same_app_info(first, second),
{
}

} // verus!
