use qpatcher::error::{Error, IoFailure};
use qpatcher::paths::{fix_perms, Owner};
use qpatcher::provision::{
    provision, provision_begin, provision_performed, provision_probed, AncestorChain,
    ProvisionEffect, ProvisionStep,
};

const ROOT: Owner = Owner { uid: 0, gid: 0 };
const OPERATOR: Owner = Owner { uid: 1000, gid: 100 };
const OTHER: Owner = Owner { uid: 1234, gid: 1234 };

fn chain(actor: Owner, segments: Vec<Option<Owner>>) -> AncestorChain {
    AncestorChain { actor, segments, repairs: vec![] }
}

#[test]
fn provision_repairs_only_what_it_created() {
    let mut c = chain(ROOT, vec![Some(ROOT), Some(OTHER), None, None, None]);
    assert_eq!(provision(&mut c, Some(OPERATOR)), Ok(()));
    assert_eq!(
        c.segments,
        vec![Some(ROOT), Some(OTHER), Some(OPERATOR), Some(OPERATOR), Some(OPERATOR)]
    );
    assert_eq!(c.repairs, vec![2, 3, 4]);
}

#[test]
fn provision_of_an_existing_path_touches_nothing() {
    let mut c = chain(ROOT, vec![Some(ROOT), Some(OTHER), Some(OPERATOR)]);
    let before = c.clone();
    assert_eq!(provision(&mut c, Some(OPERATOR)), Ok(()));
    assert_eq!(c, before);
    let mut empty = chain(ROOT, vec![]);
    assert_eq!(provision(&mut empty, Some(OPERATOR)), Ok(()));
    assert_eq!(empty, chain(ROOT, vec![]));
}

#[test]
fn provision_keeps_earlier_repairs_in_the_record() {
    let mut c = AncestorChain { actor: ROOT, segments: vec![Some(ROOT), None], repairs: vec![7] };
    assert_eq!(provision(&mut c, Some(OPERATOR)), Ok(()));
    assert_eq!(c.repairs, vec![7, 1]);
}

#[test]
fn provision_without_rights_stops_at_the_first_repair() {
    let mut c = chain(OTHER, vec![Some(ROOT), None, None]);
    assert_eq!(provision(&mut c, Some(OPERATOR)), Err(Error::PermissionDenied));
    // the first missing ancestor was created and is not rolled back
    assert_eq!(c.segments, vec![Some(ROOT), Some(OTHER), None]);
    assert_eq!(c.repairs, vec![1]);
}

#[test]
fn provision_without_ownership_creates_and_repairs_nothing() {
    let mut c = chain(OTHER, vec![Some(ROOT), None, None]);
    assert_eq!(provision(&mut c, None), Ok(()));
    assert_eq!(c.segments, vec![Some(ROOT), Some(OTHER), Some(OTHER)]);
    assert_eq!(c.repairs, Vec::<usize>::new());
}

#[test]
fn provision_creates_a_missing_root() {
    let mut c = chain(ROOT, vec![None, None]);
    assert_eq!(provision(&mut c, Some(OPERATOR)), Ok(()));
    assert_eq!(c.segments, vec![Some(OPERATOR), Some(OPERATOR)]);
    assert_eq!(c.repairs, vec![0, 1]);
}

#[test]
fn chain_operations_follow_the_filesystem() {
    let mut c = chain(ROOT, vec![Some(ROOT), None, None]);
    assert!(c.is_present(0));
    assert!(!c.is_present(1));
    assert!(!c.is_present(3));
    assert_eq!(c.create_dir(0), Err(Error::IoFailure(IoFailure::AlreadyExists)));
    assert_eq!(c.create_dir(2), Err(Error::IoFailure(IoFailure::NotFound)));
    assert_eq!(c.create_dir(3), Err(Error::IoFailure(IoFailure::NotFound)));
    assert_eq!(c.create_dir(1), Ok(()));
    assert_eq!(c.segments, vec![Some(ROOT), Some(ROOT), None]);
    assert_eq!(c.fix_ownership(2, OPERATOR), Err(Error::IoFailure(IoFailure::NotFound)));
    assert_eq!(c.fix_ownership(1, OPERATOR), Ok(()));
    assert_eq!(c.segments, vec![Some(ROOT), Some(OPERATOR), None]);
    assert_eq!(c.repairs, vec![2, 1]);
}

#[test]
fn fix_perms_needs_the_superuser() {
    let mut owner = ROOT;
    assert_eq!(fix_perms(&mut owner, ROOT, OPERATOR), Ok(()));
    assert_eq!(owner, OPERATOR);
    let mut owner = OTHER;
    assert_eq!(fix_perms(&mut owner, OTHER, OPERATOR), Err(Error::PermissionDenied));
    assert_eq!(owner, OTHER);
    assert!(ROOT.is_superuser());
    assert!(!OPERATOR.is_superuser());
}

#[test]
fn walk_begins_at_the_root() {
    assert_eq!(provision_begin(0), ProvisionStep::Done(Ok(())));
    assert_eq!(provision_begin(3), ProvisionStep::Probe(0));
}

#[test]
fn walk_leaves_existing_ancestors_alone() {
    assert_eq!(provision_probed(3, 0, true), ProvisionStep::Probe(1));
    assert_eq!(provision_probed(3, 2, true), ProvisionStep::Done(Ok(())));
    assert_eq!(
        provision_probed(3, 1, false),
        ProvisionStep::Perform(ProvisionEffect::CreateDir(1))
    );
}

#[test]
fn walk_repairs_right_after_creating() {
    assert_eq!(
        provision_performed(3, true, ProvisionEffect::CreateDir(1), Ok(())),
        ProvisionStep::Perform(ProvisionEffect::FixOwnership(1))
    );
    assert_eq!(
        provision_performed(3, true, ProvisionEffect::FixOwnership(1), Ok(())),
        ProvisionStep::Probe(2)
    );
    assert_eq!(
        provision_performed(3, true, ProvisionEffect::FixOwnership(2), Ok(())),
        ProvisionStep::Done(Ok(()))
    );
    assert_eq!(
        provision_performed(3, false, ProvisionEffect::CreateDir(1), Ok(())),
        ProvisionStep::Probe(2)
    );
    assert_eq!(
        provision_performed(usize::MAX, false, ProvisionEffect::CreateDir(usize::MAX), Ok(())),
        ProvisionStep::Done(Ok(()))
    );
}

#[test]
fn walk_stops_at_the_first_failure() {
    let full = Err(Error::IoFailure(IoFailure::Other));
    assert_eq!(
        provision_performed(3, true, ProvisionEffect::CreateDir(0), full),
        ProvisionStep::Done(full)
    );
    assert_eq!(
        provision_performed(3, true, ProvisionEffect::FixOwnership(0), Err(Error::PermissionDenied)),
        ProvisionStep::Done(Err(Error::PermissionDenied))
    );
}
