//! Applications that must never be uninstalled.
use vstd::prelude::*;

use crate::app_inventory::{ApplicationLocation, InstalledApplication};
use crate::bundle_identifier::{is_apple_bundle_identifier, spec_is_apple_bundle_identifier};
use crate::path::{path_starts_with, starts_with_path};

verus! {

/// Why an application is protected.
#[derive(Debug, Clone, PartialEq, Eq)]
pub enum ApplicationProtectionReason {
    SystemLocation,
    SystemPath(String),
    AppleBundleIdentifier(String),
}

/// The model of a protection reason.
pub enum ReasonModel {
    SystemLocation,
    SystemPath(Seq<char>),
    AppleBundleIdentifier(Seq<char>),
}

impl View for ApplicationProtectionReason {
    type V = ReasonModel;

    open spec fn view(&self) -> ReasonModel {
        match self {
            ApplicationProtectionReason::SystemLocation => ReasonModel::SystemLocation,
            ApplicationProtectionReason::SystemPath(p) => ReasonModel::SystemPath(p@),
            ApplicationProtectionReason::AppleBundleIdentifier(i) => ReasonModel::AppleBundleIdentifier(
                i@,
            ),
        }
    }
}

impl ApplicationProtectionReason {
    pub open spec fn spec_label(&self) -> Seq<char> {
        match self {
            ApplicationProtectionReason::SystemLocation => "system location"@,
            ApplicationProtectionReason::SystemPath(_) => "system application path"@,
            ApplicationProtectionReason::AppleBundleIdentifier(_) => "Apple bundle identifier"@,
        }
    }

    /// A short description of the reason.
    pub fn label(&self) -> (label: &'static str)
        ensures
            label@ == self.spec_label(),
    {
        match self {
            ApplicationProtectionReason::SystemLocation => "system location",
            ApplicationProtectionReason::SystemPath(_) => "system application path",
            ApplicationProtectionReason::AppleBundleIdentifier(_) => "Apple bundle identifier",
        }
    }
}

/// Whether an application may be uninstalled, and if not, why.
#[derive(Debug, Clone, PartialEq, Eq)]
pub enum ApplicationProtection {
    Unprotected,
    Protected(Vec<ApplicationProtectionReason>),
}

/// The models of a list of reasons.
pub open spec fn reason_models(reasons: Seq<ApplicationProtectionReason>) -> Seq<ReasonModel> {
    reasons.map_values(|r: ApplicationProtectionReason| r@)
}

impl ApplicationProtection {
    pub open spec fn spec_is_protected(&self) -> bool {
        self is Protected
    }

    /// Whether the application is protected.
    pub fn is_protected(&self) -> (r: bool)
        ensures
            r == self.spec_is_protected(),
    {
        match self {
            ApplicationProtection::Protected(_) => true,
            ApplicationProtection::Unprotected => false,
        }
    }

    /// The reasons for protection; none for an unprotected application.
    pub fn reasons(&self) -> (r: &[ApplicationProtectionReason])
        ensures
            match self {
                ApplicationProtection::Unprotected => r@.len() == 0,
                ApplicationProtection::Protected(reasons) => r@ == reasons@,
            },
    {
        match self {
            ApplicationProtection::Unprotected => &[],
            ApplicationProtection::Protected(reasons) => reasons.as_slice(),
        }
    }
}

/// The system application roots, most specific last.
pub open spec fn system_application_roots() -> Seq<Seq<char>> {
    seq![
        "/System/Applications"@,
        "/System/Library/CoreServices/Applications"@,
        "/System/Library/CoreServices"@,
    ]
}

/// The first system application root that `path` lies within, if any.
pub open spec fn spec_matching_system_root(path: Seq<char>) -> Option<Seq<char>> {
    if path_starts_with(path, system_application_roots()[0]) {
        Some(system_application_roots()[0])
    } else if path_starts_with(path, system_application_roots()[1]) {
        Some(system_application_roots()[1])
    } else if path_starts_with(path, system_application_roots()[2]) {
        Some(system_application_roots()[2])
    } else {
        None
    }
}

/// The reasons an application is protected, in this order: installed in the system
/// location; lying within a system application root; carrying an Apple bundle identifier.
pub open spec fn spec_protection_reasons(app: InstalledApplication) -> Seq<ReasonModel> {
    let location: Seq<ReasonModel> = if app.location == ApplicationLocation::System {
        seq![ReasonModel::SystemLocation]
    } else {
        seq![]
    };
    let path: Seq<ReasonModel> = match spec_matching_system_root(app.path@) {
        Some(root) => seq![ReasonModel::SystemPath(root)],
        None => seq![],
    };
    let bundle: Seq<ReasonModel> = match app.metadata.bundle_identifier {
        Some(id) => if spec_is_apple_bundle_identifier(id@) {
            seq![ReasonModel::AppleBundleIdentifier(id@)]
        } else {
            seq![]
        },
        None => seq![],
    };
    location + path + bundle
}

/// An application inside a system application root is protected for it: the
/// reasons name `/System/Applications` for an application under it; otherwise
/// `/System/Library/CoreServices/Applications` for one under that; otherwise
/// `/System/Library/CoreServices` for one under that. An application under none
/// of them has no system path reason.
pub proof fn system_roots_protect_their_applications(app: InstalledApplication)
    ensures
        path_starts_with(app.path@, "/System/Applications"@) ==> spec_protection_reasons(
            app,
        ).contains(ReasonModel::SystemPath("/System/Applications"@)),
        !path_starts_with(app.path@, "/System/Applications"@) && path_starts_with(
            app.path@,
            "/System/Library/CoreServices/Applications"@,
        ) ==> spec_protection_reasons(app).contains(
            ReasonModel::SystemPath("/System/Library/CoreServices/Applications"@),
        ),
        !path_starts_with(app.path@, "/System/Applications"@) && !path_starts_with(
            app.path@,
            "/System/Library/CoreServices/Applications"@,
        ) && path_starts_with(app.path@, "/System/Library/CoreServices"@)
            ==> spec_protection_reasons(app).contains(
            ReasonModel::SystemPath("/System/Library/CoreServices"@),
        ),
        !path_starts_with(app.path@, "/System/Applications"@) && !path_starts_with(
            app.path@,
            "/System/Library/CoreServices/Applications"@,
        ) && !path_starts_with(app.path@, "/System/Library/CoreServices"@) ==> forall|i: int|
            0 <= i < spec_protection_reasons(app).len() ==> !(#[trigger] spec_protection_reasons(
                app,
            )[i] is SystemPath),
        forall|i: int, j: int|
            0 <= i < j < spec_protection_reasons(app).len() && (#[trigger] spec_protection_reasons(
                app,
            )[i]) is SystemPath ==> !(#[trigger] spec_protection_reasons(app)[j] is SystemPath),
{
    let reasons = spec_protection_reasons(app);
    let location: Seq<ReasonModel> = if app.location == ApplicationLocation::System {
        seq![ReasonModel::SystemLocation]
    } else {
        seq![]
    };
    let path: Seq<ReasonModel> = match spec_matching_system_root(app.path@) {
        Some(root) => seq![ReasonModel::SystemPath(root)],
        None => seq![],
    };
    let bundle: Seq<ReasonModel> = match app.metadata.bundle_identifier {
        Some(id) => if spec_is_apple_bundle_identifier(id@) {
            seq![ReasonModel::AppleBundleIdentifier(id@)]
        } else {
            seq![]
        },
        None => seq![],
    };
    assert(reasons == location + path + bundle);
    assert(system_application_roots()[0] == "/System/Applications"@);
    assert(system_application_roots()[1] == "/System/Library/CoreServices/Applications"@);
    assert(system_application_roots()[2] == "/System/Library/CoreServices"@);
    if path.len() == 1 {
        assert(reasons[location.len() as int] == path[0]);
    }
    assert forall|i: int| 0 <= i < reasons.len() && (#[trigger] reasons[i]) is SystemPath implies i
        == location.len() && path.len() == 1 by {
        if i < location.len() {
            assert(reasons[i] == location[i]);
        } else if i < location.len() + path.len() {
            assert(reasons[i] == path[i - location.len()]);
        } else {
            assert(reasons[i] == bundle[i - location.len() - path.len()]);
        }
    }
}

/// An application in the system location is protected for it, and one elsewhere
/// is not; an application whose bundle identifier is Apple's is protected for it,
/// naming the identifier; and nothing else gives a reason.
pub proof fn location_and_identifier_protect(app: InstalledApplication)
    ensures
        app.location == ApplicationLocation::System <==> spec_protection_reasons(app).contains(
            ReasonModel::SystemLocation,
        ),
        forall|id: String|
            app.metadata.bundle_identifier == Some(id) && spec_is_apple_bundle_identifier(id@)
                ==> #[trigger] spec_protection_reasons(app).contains(
                ReasonModel::AppleBundleIdentifier(id@),
            ),
        forall|i: int|
            0 <= i < spec_protection_reasons(app).len() ==> match #[trigger] spec_protection_reasons(
                app,
            )[i] {
                ReasonModel::SystemLocation => app.location == ApplicationLocation::System,
                ReasonModel::SystemPath(root) => path_starts_with(app.path@, root),
                ReasonModel::AppleBundleIdentifier(id) => app.metadata.bundle_identifier matches Some(
                    b,
                ) && b@ == id && spec_is_apple_bundle_identifier(id),
            },
{
    let reasons = spec_protection_reasons(app);
    let location: Seq<ReasonModel> = if app.location == ApplicationLocation::System {
        seq![ReasonModel::SystemLocation]
    } else {
        seq![]
    };
    let path: Seq<ReasonModel> = match spec_matching_system_root(app.path@) {
        Some(root) => seq![ReasonModel::SystemPath(root)],
        None => seq![],
    };
    let bundle: Seq<ReasonModel> = match app.metadata.bundle_identifier {
        Some(id) => if spec_is_apple_bundle_identifier(id@) {
            seq![ReasonModel::AppleBundleIdentifier(id@)]
        } else {
            seq![]
        },
        None => seq![],
    };
    assert(reasons == location + path + bundle);
    if location.len() == 1 {
        assert(reasons[0] == location[0]);
    }
    if bundle.len() == 1 {
        assert(reasons[(location.len() + path.len()) as int] == bundle[0]);
    }
    assert forall|i: int| 0 <= i < reasons.len() implies match #[trigger] reasons[i] {
        ReasonModel::SystemLocation => app.location == ApplicationLocation::System,
        ReasonModel::SystemPath(root) => path_starts_with(app.path@, root),
        ReasonModel::AppleBundleIdentifier(id) => app.metadata.bundle_identifier matches Some(b)
            && b@ == id && spec_is_apple_bundle_identifier(id),
    } by {
        if i < location.len() {
            assert(reasons[i] == location[i]);
        } else if i < location.len() + path.len() {
            assert(reasons[i] == path[i - location.len()]);
        } else {
            assert(reasons[i] == bundle[i - location.len() - path.len()]);
        }
    }
    if reasons.contains(ReasonModel::SystemLocation) {
        let i = choose|i: int| 0 <= i < reasons.len() && reasons[i] == ReasonModel::SystemLocation;
        assert(match reasons[i] {
            ReasonModel::SystemLocation => app.location == ApplicationLocation::System,
            _ => true,
        });
    }
}

fn system_root_at(i: usize) -> (r: &'static str)
    requires
        i < 3,
    ensures
        r@ == system_application_roots()[i as int],
{
    match i {
        0 => "/System/Applications",
        1 => "/System/Library/CoreServices/Applications",
        _ => "/System/Library/CoreServices",
    }
}

fn matching_system_application_root(path: &str) -> (r: Option<&'static str>)
    ensures
        match r {
            Some(root) => spec_matching_system_root(path@) == Some(root@),
            None => spec_matching_system_root(path@) is None,
        },
{
    let first = system_root_at(0);
    if starts_with_path(path, first) {
        return Some(first);
    }
    let second = system_root_at(1);
    if starts_with_path(path, second) {
        return Some(second);
    }
    let third = system_root_at(2);
    if starts_with_path(path, third) {
        return Some(third);
    }
    None
}

/// The rules that protect system and Apple applications.
#[derive(Debug, Default, Clone, Copy)]
pub struct ApplicationProtectionPolicy;

impl ApplicationProtectionPolicy {
    /// Protected exactly when there is a reason, with every reason listed.
    pub fn evaluate(self, application: &InstalledApplication) -> (p: ApplicationProtection)
        ensures
            match p {
                ApplicationProtection::Unprotected => spec_protection_reasons(*application).len()
                    == 0,
                ApplicationProtection::Protected(reasons) => reasons@.len() > 0 && reason_models(
                    reasons@,
                ) == spec_protection_reasons(*application),
            },
    {
        let mut reasons: Vec<ApplicationProtectionReason> = Vec::new();
        if application.location == ApplicationLocation::System {
            reasons.push(ApplicationProtectionReason::SystemLocation);
        }
        let ghost after_location = reason_models(reasons@);
        if let Some(root) = matching_system_application_root(application.path.as_str()) {
            reasons.push(ApplicationProtectionReason::SystemPath(root.to_owned()));
        }
        let ghost after_path = reason_models(reasons@);
        match &application.metadata.bundle_identifier {
            Some(id) => {
                if is_apple_bundle_identifier(id.as_str()) {
                    reasons.push(ApplicationProtectionReason::AppleBundleIdentifier(id.clone()));
                }
            },
            None => {},
        }
        assert(reason_models(reasons@) =~= spec_protection_reasons(*application));
        if reasons.len() == 0 {
            ApplicationProtection::Unprotected
        } else {
            ApplicationProtection::Protected(reasons)
        }
    }
}

} // verus!
