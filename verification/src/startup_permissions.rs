//! The permissions that the program has when it starts.
use vstd::prelude::*;

verus! {

/// Which permissions are granted.
#[derive(Debug, Clone, PartialEq, Eq)]
pub struct StartupPermissionStatus {
    pub screen_capture_granted: bool,
    pub accessibility_trusted: bool,
}

impl Default for StartupPermissionStatus {
    /// No permission is granted.
    fn default() -> (res: Self)
        ensures
            !res.screen_capture_granted,
            !res.accessibility_trusted,
    {
        StartupPermissionStatus { screen_capture_granted: false, accessibility_trusted: false }
    }
}

/// A host that can tell which permissions are granted, without asking for any.
pub trait PermissionApi {
    fn screen_capture_granted(&self) -> bool;

    fn accessibility_trusted(&self) -> bool;
}

/// Reports what the host tells.
pub fn check_startup_permissions_with<A: PermissionApi>(api: &A) -> (res: StartupPermissionStatus)
    ensures
        call_ensures(A::screen_capture_granted, (api,), res.screen_capture_granted),
        call_ensures(A::accessibility_trusted, (api,), res.accessibility_trusted),
{
    StartupPermissionStatus {
        screen_capture_granted: api.screen_capture_granted(),
        accessibility_trusted: api.accessibility_trusted(),
    }
}

/// Reports which permissions are granted: on macOS what the host tells, elsewhere, where no host
/// tells anything, none.
pub fn check_startup_permissions<A: PermissionApi>(host: Option<&A>) -> (res:
    StartupPermissionStatus)
    ensures
        match host {
            Some(api) => {
                &&& call_ensures(A::screen_capture_granted, (api,), res.screen_capture_granted)
                &&& call_ensures(A::accessibility_trusted, (api,), res.accessibility_trusted)
            },
            None => !res.screen_capture_granted && !res.accessibility_trusted,
        },
{
    match host {
        Some(api) => check_startup_permissions_with(api),
        None => StartupPermissionStatus::default(),
    }
}

// ---------------------------------------------------------------------------
// Laws
// ---------------------------------------------------------------------------

/// Each permission is reported as the host tells it: one that the host never grants is not
/// reported, and one that it always grants is.
pub proof fn law_permissions_are_as_the_host_tells<A: PermissionApi>(
    api: &A,
    of_host: StartupPermissionStatus,
    asked: StartupPermissionStatus,
    granted: bool,
)
    requires
        call_ensures(check_startup_permissions_with::<A>, (api,), of_host),
        call_ensures(check_startup_permissions::<A>, (Some(api),), asked),
    ensures
        (forall|told: bool|
            #[trigger] call_ensures(A::screen_capture_granted, (api,), told) ==> told == granted)
            ==> of_host.screen_capture_granted == granted && asked.screen_capture_granted
            == granted,
        (forall|told: bool|
            #[trigger] call_ensures(A::accessibility_trusted, (api,), told) ==> told == granted)
            ==> of_host.accessibility_trusted == granted && asked.accessibility_trusted
            == granted,
{
}

/// Without a host no permission is granted.
pub proof fn law_no_host_no_permission<A: PermissionApi>(
    asked: StartupPermissionStatus,
    none: StartupPermissionStatus,
)
    requires
        call_ensures(check_startup_permissions::<A>, (None,), asked),
        call_ensures(StartupPermissionStatus::default, (), none),
    ensures
        !asked.screen_capture_granted && !asked.accessibility_trusted,
        !none.screen_capture_granted && !none.accessibility_trusted,
{
}

} // verus!
