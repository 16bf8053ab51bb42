//! The libkrun microVM backend, not built yet: every operation says so.

use vstd::prelude::*;

use crate::mechanism::{
    self, push_item, CreateRequest, CreateResult, DoctorItem, ExecRequest, ExecResult, Mechanism,
    MechanismError,
};
use crate::policy::MechanismKind;

verus! {

/// The libkrun backend.
#[derive(Debug)]
pub struct KrunMechanism;

impl KrunMechanism {
    pub fn new() -> (r: Self)
        ensures
            r == KrunMechanism,
    {
        KrunMechanism
    }
}

impl Default for KrunMechanism {
    fn default() -> (r: Self)
        ensures
            r == KrunMechanism,
    {
        KrunMechanism
    }
}

impl Mechanism for KrunMechanism {
    fn kind(&self) -> (r: MechanismKind)
        ensures
            r == MechanismKind::Krun,
    {
        MechanismKind::Krun
    }

    fn name(&self) -> (r: &'static str)
        ensures
            r@ == "linux_libkrun"@,
    {
        "linux_libkrun"
    }

    fn doctor(&self) -> (r: Vec<DoctorItem>)
        ensures
            mechanism::report(r@) == seq![
                mechanism::DoctorItemView {
                    name: "libkrun"@,
                    ok: false,
                    detail: "not built yet — planned Hypervisor.framework Linux arm64 microVM"@,
                },
                mechanism::DoctorItemView {
                    name: "status"@,
                    ok: false,
                    detail: "use --mechanism podman (or mac) for now"@,
                },
            ],
    {
        let mut items: Vec<DoctorItem> = Vec::new();
        push_item(
            &mut items,
            "libkrun",
            false,
            "not built yet — planned Hypervisor.framework Linux arm64 microVM",
        );
        push_item(&mut items, "status", false, "use --mechanism podman (or mac) for now");
        proof {
            assert(mechanism::report(items@) =~= seq![
                mechanism::DoctorItemView {
                    name: "libkrun"@,
                    ok: false,
                    detail: "not built yet — planned Hypervisor.framework Linux arm64 microVM"@,
                },
                mechanism::DoctorItemView {
                    name: "status"@,
                    ok: false,
                    detail: "use --mechanism podman (or mac) for now"@,
                },
            ]);
        }
        items
    }

    fn create(&self, req: &CreateRequest) -> (r: Result<CreateResult, MechanismError>)
        ensures
            r is Err,
            r->Err_0@ == mechanism::MechanismErrorView::NotImplemented(
                "linux_libkrun is a stub in v1; use podman or mac"@,
            ),
    {
        Err(
            MechanismError::NotImplemented(
                "linux_libkrun is a stub in v1; use podman or mac".to_owned(),
            ),
        )
    }

    fn exec(&self, req: &ExecRequest) -> (r: Result<ExecResult, MechanismError>)
        ensures
            r is Err,
            r->Err_0@ == mechanism::MechanismErrorView::NotImplemented(
                "linux_libkrun is a stub in v1"@,
            ),
    {
        Err(MechanismError::NotImplemented("linux_libkrun is a stub in v1".to_owned()))
    }

    fn remove(&self, runtime_id: &str) -> (r: Result<(), MechanismError>)
        ensures
            r is Err,
            r->Err_0@ == mechanism::MechanismErrorView::NotImplemented(
                "linux_libkrun is a stub in v1"@,
            ),
    {
        Err(MechanismError::NotImplemented("linux_libkrun is a stub in v1".to_owned()))
    }
}

/// Nothing is created, run or removed by this backend: every request is refused as not built yet.
pub proof fn law_nothing_is_built_yet(
    m: &KrunMechanism,
    req: &CreateRequest,
    run: &ExecRequest,
    id: &str,
    created: Result<CreateResult, MechanismError>,
    ran: Result<ExecResult, MechanismError>,
    removed: Result<(), MechanismError>,
)
    requires
        call_ensures(<KrunMechanism as Mechanism>::create, (m, req), created),
        call_ensures(<KrunMechanism as Mechanism>::exec, (m, run), ran),
        call_ensures(<KrunMechanism as Mechanism>::remove, (m, id), removed),
    ensures
        created is Err && created->Err_0@ == mechanism::MechanismErrorView::NotImplemented(
            "linux_libkrun is a stub in v1; use podman or mac"@,
        ),
        ran is Err && ran->Err_0@ == mechanism::MechanismErrorView::NotImplemented(
            "linux_libkrun is a stub in v1"@,
        ),
        removed is Err && removed->Err_0@ == mechanism::MechanismErrorView::NotImplemented(
            "linux_libkrun is a stub in v1"@,
        ),
{
}

/// The report says that nothing passed, and what to use in its place.
pub proof fn law_report_says_not_built(m: &KrunMechanism, r: Vec<DoctorItem>, i: int)
    requires
        call_ensures(<KrunMechanism as Mechanism>::doctor, (m,), r),
    ensures
        r@.len() == 2,
        0 <= i < 2 ==> !r@[i].ok,
        r@[0].name@ == "libkrun"@,
        r@[1].name@ == "status"@,
        r@[1].detail@ == "use --mechanism podman (or mac) for now"@,
{
    let items = mechanism::report(r@);
    assert(items.len() == 2);
    assert(items.len() == r@.len());
    assert(items[0].name == r@[0].name@ && items[0].ok == r@[0].ok);
    assert(items[1].name == r@[1].name@ && items[1].ok == r@[1].ok && items[1].detail
        == r@[1].detail@);
}

} // verus!
