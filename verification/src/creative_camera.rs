//! Creative (build-mode) camera records, one per identity.

use vstd::prelude::*;

use crate::errors::ReducerError;
use crate::keyed::{lemma_find_first_none_inv, lemma_find_first_push};
use crate::types::{DbVector3, Identity};
use crate::world::{
    camera_lookup, camera_with_identity, find_camera_index, lemma_camera_table_update,
    same_except_cameras, World,
};

verus! {

/// The build-mode camera of one identity.
#[derive(Clone, Copy, PartialEq, Eq, Structural, Debug)]
pub struct CreativeCamera {
    pub identity: Identity,
    pub enabled: bool,
    pub position: DbVector3,
    pub rotation: DbVector3,
}

/// Provision the caller's creative camera: disabled, at the origin. Each
/// identity gets exactly one camera, so the caller must not already have
/// one.
pub fn create_creative_camera(w: &mut World, sender: Identity) -> (r: Result<(), ReducerError>)
    requires
        old(w).wf(),
        camera_lookup(*old(w), sender) is None,
    ensures
        final(w).wf(),
        r is Ok,
        same_except_cameras(*old(w), *final(w)),
        final(w).cameras@.len() == old(w).cameras@.len() + 1,
        camera_lookup(*final(w), sender) == Some(
            CreativeCamera {
                identity: sender,
                enabled: false,
                position: DbVector3 { x: 0, y: 0, z: 0 },
                rotation: DbVector3 { x: 0, y: 0, z: 0 },
            },
        ),
        forall|o: Identity|
            o != sender ==> camera_lookup(*final(w), o) == camera_lookup(*old(w), o),
{
    let ghost pre = w.cameras@;
    let camera = CreativeCamera {
        identity: sender,
        enabled: false,
        position: DbVector3::default(),
        rotation: DbVector3::default(),
    };
    let ghost new_camera = camera;
    w.cameras.push(camera);
    proof {
        lemma_find_first_none_inv(pre, camera_with_identity(sender));
        lemma_find_first_push(pre, camera_with_identity(sender), new_camera);
        assert forall|o: Identity| o != sender implies camera_lookup(*w, o) == camera_lookup(
            *old(w),
            o,
        ) by {
            lemma_find_first_push(pre, camera_with_identity(o), new_camera);
        }
    }
    Ok(())
}

/// Switch the caller's camera on or off; every other field (and every
/// other record) stays as it was. Fails when the caller has no camera.
pub fn set_creative_camera_enabled(w: &mut World, sender: Identity, enabled: bool) -> (r: Result<
    (),
    ReducerError,
>)
    requires
        old(w).wf(),
    ensures
        final(w).wf(),
        same_except_cameras(*old(w), *final(w)),
        r is Ok <==> camera_lookup(*old(w), sender) is Some,
        match r {
            Ok(()) => {
                &&& camera_lookup(*final(w), sender) == Some(
                    CreativeCamera {
                        identity: sender,
                        enabled,
                        position: camera_lookup(*old(w), sender).unwrap().position,
                        rotation: camera_lookup(*old(w), sender).unwrap().rotation,
                    },
                )
                &&& forall|o: Identity|
                    o != sender ==> camera_lookup(*final(w), o) == camera_lookup(*old(w), o)
            },
            Err(e) => e == ReducerError::CameraNotFound && *final(w) == *old(w),
        },
{
    let ghost pre = w.cameras@;
    match find_camera_index(w, sender) {
        Some(i) => {
            let mut camera = w.cameras.remove(i);
            camera.enabled = enabled;
            let ghost cam2 = camera;
            w.cameras.insert(i, camera);
            proof {
                assert(w.cameras@ =~= pre.update(i as int, cam2));
                lemma_camera_table_update(*old(w), *w, i as int, sender);
            }
            Ok(())
        },
        None => Err(ReducerError::CameraNotFound),
    }
}

/// Move the caller's camera to a new pose; its enabled state (and every
/// other record) stays as it was. Fails when the caller has no camera.
pub fn move_creative_camera(
    w: &mut World,
    sender: Identity,
    position: DbVector3,
    rotation: DbVector3,
) -> (r: Result<(), ReducerError>)
    requires
        old(w).wf(),
    ensures
        final(w).wf(),
        same_except_cameras(*old(w), *final(w)),
        r is Ok <==> camera_lookup(*old(w), sender) is Some,
        match r {
            Ok(()) => {
                &&& camera_lookup(*final(w), sender) == Some(
                    CreativeCamera {
                        identity: sender,
                        enabled: camera_lookup(*old(w), sender).unwrap().enabled,
                        position,
                        rotation,
                    },
                )
                &&& forall|o: Identity|
                    o != sender ==> camera_lookup(*final(w), o) == camera_lookup(*old(w), o)
            },
            Err(e) => e == ReducerError::CameraNotFound && *final(w) == *old(w),
        },
{
    let ghost pre = w.cameras@;
    match find_camera_index(w, sender) {
        Some(i) => {
            let mut camera = w.cameras.remove(i);
            camera.position = position;
            camera.rotation = rotation;
            let ghost cam2 = camera;
            w.cameras.insert(i, camera);
            proof {
                assert(w.cameras@ =~= pre.update(i as int, cam2));
                lemma_camera_table_update(*old(w), *w, i as int, sender);
            }
            Ok(())
        },
        None => Err(ReducerError::CameraNotFound),
    }
}

} // verus!
