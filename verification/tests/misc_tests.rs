//! Tests for the fixed-capacity vector, introduction-point bookkeeping,
//! service startup decisions, the no-op key manager, permission checks,
//! and the directory-fetch decision logic.

use std::cell::RefCell;
use std::rc::Rc;

use chanmgr::dirfetch::{
    decompress_step, download_verdict, read_headers_step, response_ok, DecompressStatusKind,
    DecompressStep, DownloadVerdict, HeaderStep,
};
use chanmgr::fixedvec::FixedCapacityVec;
use chanmgr::hs::{
    config_transition, confirm_hsid_generation, plan_hsid_setup, take_unlaunched, ClientError,
    HsIdSetupStep, Reconfigure, StartupError,
};
use chanmgr::ipt::{IptInSet, IptSet, IPT_PUBLISH_EXPIRY_SLOP_SECS};
use chanmgr::keymgr::{ErrorKind, KeyMgr, KeySpecifier};
use chanmgr::mistrust::{
    should_retain, FsError, FsType, MetaModel, PathType, Type, Verifier,
};

type Fv<T> = FixedCapacityVec<T, 10>;

fn test_api<T: std::fmt::Debug>(mut f: impl FnMut() -> T) {
    println!("make empty");
    let mut v = Fv::<T>::new();
    assert_eq!(v.len(), 0);
    assert!(v.is_empty());
    assert!(!v.is_full());

    println!("fill 0..5");
    for i in 0..5 {
        v.push(f());
        assert_eq!(v.len(), i + 1);
    }
    assert!(!v.is_empty());
    assert!(!v.is_full());

    println!("fail conversion to boxed slice");
    let v: Fv<T> = v.into_boxed_slice().unwrap_err();
    assert_eq!(v.len(), 5);

    println!("drop 0..5");
    drop(v);

    println!("make empty (2)");
    let mut v = Fv::<T>::new();

    println!("fill 0..10");
    for _i in 0..10 {
        v.push(f());
    }
    let () = v.push_inner(f()).unwrap_err();

    assert_eq!(v.len(), 10);
    assert!(v.is_full());
    assert!(!v.is_empty());

    println!("conversion to boxed slice");
    let v: Box<[T]> = v.into_boxed_slice().map_err(|_| ()).expect("not into boxed slice");
    assert_eq!(v.len(), 10);

    println!("drop boxed slice");
    drop(v);
}

#[test]
fn api_i32() {
    test_api(|| 42_i32);
}

#[derive(Debug)]
struct HasDrop {
    index: usize,
    counted: Rc<RefCell<usize>>,
}

impl Drop for HasDrop {
    fn drop(&mut self) {
        println!("dropping {}", self.index);
        *self.counted.borrow_mut() -= 1;
    }
}

#[test]
fn api_has_drop() {
    let counted = Rc::new(RefCell::new(0));
    let mut next_index = 0;

    test_api(|| {
        let index = {
            let mut counted = counted.borrow_mut();
            *counted += 1;
            next_index += 1;
            next_index
        };
        println!("creating {}", index);
        HasDrop { index, counted: counted.clone() }
    });

    assert_eq!(*counted.borrow(), 0);
}

#[test]
fn test() {
    // Publication bookkeeping: a publication attempt raises every
    // introduction point's expiry bound; an earlier attempt is ignored.
    let lifetime = 1800;
    let publish_end_timeout = 300;
    let now = 10_000;

    let mut set = IptSet {
        ipts: vec![IptInSet { lid: vec![42u8; 32], last_descriptor_expiry_including_slop: None }],
        lifetime,
    };

    set.note_publication_attempt(now + publish_end_timeout).unwrap();
    let expected_expiry = now + publish_end_timeout + lifetime + IPT_PUBLISH_EXPIRY_SLOP_SECS;
    assert_eq!(
        set.ipts[0].last_descriptor_expiry_including_slop,
        Some(expected_expiry)
    );

    // Setting an *earlier* lifetime is ignored.
    set.note_publication_attempt(now - 10).unwrap();
    assert_eq!(
        set.ipts[0].last_descriptor_expiry_including_slop,
        Some(expected_expiry)
    );

    // A bound that would overflow the clock is a defect, not a panic.
    assert!(set.note_publication_attempt(u64::MAX).is_err());
    assert_eq!(
        set.ipts[0].last_descriptor_expiry_including_slop,
        Some(expected_expiry)
    );
}

#[test]
fn hsid_setup_decisions() {
    // Offline identities are left alone, whatever the keystore holds.
    assert_eq!(plan_hsid_setup(false, false, true), Ok(HsIdSetupStep::Nothing));
    assert_eq!(plan_hsid_setup(true, true, true), Ok(HsIdSetupStep::Nothing));
    // A public key without its keypair cannot be regenerated.
    assert_eq!(plan_hsid_setup(false, true, false), Err(StartupError::KeystoreCorrupted));
    // Otherwise generation is attempted (it keeps an existing keypair).
    assert_eq!(plan_hsid_setup(false, false, false), Ok(HsIdSetupStep::Generate));
    assert_eq!(plan_hsid_setup(true, true, false), Ok(HsIdSetupStep::Generate));

    assert_eq!(confirm_hsid_generation(true, true), Ok(true));
    assert_eq!(confirm_hsid_generation(false, true), Ok(false));
    assert_eq!(confirm_hsid_generation(true, false), Err(StartupError::KeystoreCorrupted));
}

#[test]
fn config_transitions() {
    assert_eq!(config_transition(Reconfigure::CheckAllOrNothing, 1, 2), 1);
    assert_eq!(config_transition(Reconfigure::AllOrNothing, 1, 2), 2);
    assert_eq!(config_transition(Reconfigure::WarnOnFailures, 1, 2), 2);
}

#[test]
fn client_error_variants() {
    let e = ClientError::BadIntroduce("malformed request".to_string());
    assert!(matches!(e, ClientError::BadIntroduce(_)));
    let e = ClientError::EstablishSession("circuit failed".to_string());
    assert!(matches!(e, ClientError::EstablishSession(_)));
}

#[test]
fn launch_exactly_once() {
    let mut slot: Option<u32> = Some(17);
    assert_eq!(take_unlaunched(&mut slot), Ok(17));
    assert_eq!(take_unlaunched(&mut slot), Err(StartupError::AlreadyLaunched));
}

#[test]
fn keymgr_noop() {
    let mgr = KeyMgr;
    let spec = KeySpecifier;
    let got: Option<u32> = mgr.get(&spec).unwrap();
    assert!(got.is_none());
    mgr.insert(5u8, &spec).unwrap();
    mgr.remove::<u8>(&spec).unwrap();
    assert_eq!(chanmgr::keymgr::Error.kind(), ErrorKind::Other);
}

#[test]
fn permission_checks() {
    let v = Verifier {
        trust_uid: Some(1000),
        trust_gid: None,
        readable_okay: false,
        check_contents: false,
        enforce_type: Type::Dir,
    };

    // A root-owned, owner-only directory is fine.
    let meta = MetaModel { fs_type: FsType::Dir, uid: 0, gid: 0, mode: 0o700 };
    assert!(v.check_one(PathType::Final, &meta).is_empty());

    // Symbolic links on the way are never judged.
    let meta = MetaModel { fs_type: FsType::Other, uid: 9, gid: 9, mode: 0o777 };
    assert!(v.check_one(PathType::Symlink, &meta).is_empty());

    // A file where a directory was required, owned by a stranger and
    // world-writable: all three problems, in order.
    let meta = MetaModel { fs_type: FsType::File, uid: 9, gid: 9, mode: 0o777 };
    let errs = v.check_one(PathType::Final, &meta);
    assert_eq!(errs, vec![FsError::BadType, FsError::BadOwner(9), FsError::BadPermission(0o077)]);

    // A sticky intermediate directory may be world-writable.
    let meta = MetaModel { fs_type: FsType::Dir, uid: 0, gid: 0, mode: 0o1777 };
    assert!(v.check_one(PathType::Intermediate, &meta).is_empty());
    // Without the sticky bit it may not.
    let meta = MetaModel { fs_type: FsType::Dir, uid: 0, gid: 0, mode: 0o0777 };
    assert_eq!(v.check_one(PathType::Intermediate, &meta), vec![FsError::BadPermission(0o022)]);

    // A trusted group's bits are tolerated.
    let vg = Verifier { trust_gid: Some(5), ..v };
    let meta = MetaModel { fs_type: FsType::Dir, uid: 0, gid: 5, mode: 0o770 };
    assert!(vg.check_one(PathType::Intermediate, &meta).is_empty());

    // Several entries are checked in order.
    let items = vec![
        (PathType::Intermediate, MetaModel { fs_type: FsType::Dir, uid: 0, gid: 0, mode: 0o755 }),
        (PathType::Final, MetaModel { fs_type: FsType::File, uid: 0, gid: 0, mode: 0o600 }),
    ];
    let errs = v.check_entries(&items);
    assert_eq!(errs, vec![FsError::BadType]);
}

#[test]
fn retain_outside_ignore_prefix() {
    let path = vec!["home".to_string()];
    let prefix = Some(vec!["home".to_string(), "somebody".to_string()]);
    // "/home" is a prefix of the ignored "/home/somebody": skipped.
    assert!(!should_retain(&path, &prefix));
    // "/var" is not: retained.
    let path = vec!["var".to_string()];
    assert!(should_retain(&path, &prefix));
    // With no ignore prefix, everything is retained.
    assert!(should_retain(&path, &None));
}

#[test]
fn header_reading_steps() {
    // A complete, acceptable response with an encoding and body bytes.
    let response = b"HTTP/1.0 200 OK\r\nContent-Encoding: deflate\r\n\r\nBODY";
    let mut buf = vec![0u8; 1024];
    buf[..response.len()].copy_from_slice(response);
    match read_headers_step(&mut buf, response.len(), response.len()) {
        HeaderStep::Done(st) => {
            assert_eq!(st.status, Some(200));
            assert_eq!(st.encoding, Some(b"deflate".to_vec()));
            assert_eq!(st.pending, b"BODY".to_vec());
            assert_eq!(st.n_pending, 4);
        }
        _ => panic!("expected complete headers"),
    }

    // A response that is not acceptable carries only its status.
    let response = b"HTTP/1.0 404 Not Found\r\n\r\n";
    let mut buf = vec![0u8; 1024];
    buf[..response.len()].copy_from_slice(response);
    match read_headers_step(&mut buf, response.len(), response.len()) {
        HeaderStep::Done(st) => {
            assert_eq!(st.status, Some(404));
            assert!(st.encoding.is_none());
            assert_eq!(st.n_pending, 0);
        }
        _ => panic!("expected complete headers"),
    }
    assert!(!response_ok(Some(404)));
    assert!(response_ok(Some(200)));

    // An incomplete response asks for more; an ended stream is an error.
    let partial = b"HTTP/1.0 200 OK\r\nContent-";
    let mut buf = vec![0u8; 1024];
    buf[..partial.len()].copy_from_slice(partial);
    assert!(matches!(read_headers_step(&mut buf, partial.len(), partial.len()), HeaderStep::Continue));
    assert!(matches!(read_headers_step(&mut buf, partial.len(), 0), HeaderStep::ErrTruncated));

    // An incomplete response in a nearly full buffer grows it.
    let mut buf = vec![0u8; 520];
    buf[..partial.len()].copy_from_slice(partial);
    let before = buf.len();
    assert!(matches!(read_headers_step(&mut buf, partial.len(), partial.len()), HeaderStep::Continue));
    assert_eq!(buf.len(), 2 * before);

    // Bytes that are no HTTP response at all are refused.
    let mut buf = vec![0xffu8; 64];
    assert!(matches!(read_headers_step(&mut buf, 64, 64), HeaderStep::ErrBadHeaders));
}

#[test]
fn decompression_guards() {
    // A body expanding past the floor and twenty times the input is a
    // bomb.
    assert_eq!(decompress_step(3000, 100, 1 << 20, DecompressStatusKind::Written), DecompressStep::Bomb);
    // Under the floor it is not.
    assert_eq!(decompress_step(2000, 100, 1 << 20, DecompressStatusKind::Written), DecompressStep::Continue);
    // Past the caller's limit it is too long.
    assert_eq!(decompress_step(5000, 4000, 4096, DecompressStatusKind::Written), DecompressStep::TooLong);
    // Otherwise the decompressor's status decides.
    assert_eq!(decompress_step(100, 100, 4096, DecompressStatusKind::Done), DecompressStep::Finished);
    assert_eq!(decompress_step(100, 100, 4096, DecompressStatusKind::OutOfSpace), DecompressStep::GrowResult);

    assert_eq!(download_verdict(true, true, 10), DownloadVerdict::UsePartial);
    assert_eq!(download_verdict(false, true, 10), DownloadVerdict::Propagate);
    assert_eq!(download_verdict(true, true, 0), DownloadVerdict::Propagate);
    assert_eq!(download_verdict(true, false, 0), DownloadVerdict::Success);
}
