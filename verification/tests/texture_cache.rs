use overlay_draw::error::DrawError;
use overlay_draw::texture::{
    complete_texture_create, free_textures, texture_action_error, texture_create_params,
    update_texture_entry, OwnedBwTexture, RenderState, TextureAction, TextureSet,
};

#[test]
fn create_params_require_matching_payload_length() {
    let p = texture_create_params((4, 4), 64, true).unwrap();
    assert_eq!(p.width, 4);
    assert_eq!(p.height, 4);
    assert_eq!(p.filtering, 1);
    assert_eq!(p.format, 0);
    assert_eq!(p.wrap_mode, 0);
    assert!(texture_create_params((4, 4), 63, true).is_none());
    assert!(texture_create_params((4, 4), 65, false).is_none());
    let nearest = texture_create_params((2, 3), 24, false).unwrap();
    assert_eq!(nearest.filtering, 0);
}

#[test]
fn new_rgba_refuses_the_failure_sentinel() {
    let p = texture_create_params((2, 2), 16, false).unwrap();
    assert!(OwnedBwTexture::new_rgba(p, 0).is_none());
    let t = OwnedBwTexture::new_rgba(p, 0x77).unwrap();
    assert_eq!(t.bw(), 0x77);
}

#[test]
fn failed_creation_leaves_the_id_absent() {
    let mut state = RenderState::new();
    let p = texture_create_params((2, 2), 16, false).unwrap();
    let r = complete_texture_create(&mut state, 5, p, 0);
    assert_eq!(r, Err(DrawError::TextureCreationFailed));
    assert!(state.textures.get(&5).is_none());
    complete_texture_create(&mut state, 5, p, 0xabc).unwrap();
    assert_eq!(state.textures.get(&5).unwrap().bw(), 0xabc);
}

#[test]
fn whole_image_set_becomes_a_create() {
    let state = RenderState::new();
    let set = TextureSet { id: 1, pos: None, width: 4, height: 2, data_len: 32, bilinear: true };
    match update_texture_entry(&state, &set) {
        TextureAction::Create(p) => {
            assert_eq!((p.width, p.height, p.filtering), (4, 2, 1));
        }
        other => panic!("expected a create, got {:?}", other),
    }
}

#[test]
fn bad_payload_length_is_never_sent_to_the_host() {
    let mut state = RenderState::new();
    let set = TextureSet { id: 1, pos: None, width: 4, height: 2, data_len: 31, bilinear: false };
    let action = update_texture_entry(&state, &set);
    assert!(matches!(action, TextureAction::SkipInvalidData));
    assert_eq!(texture_action_error(&action), Some(DrawError::InvalidImageData));
    // The same on the update path of a held texture.
    let p = texture_create_params((4, 2), 32, false).unwrap();
    complete_texture_create(&mut state, 1, p, 0x10).unwrap();
    let upd = TextureSet {
        id: 1,
        pos: Some((0, 0)),
        width: 4,
        height: 2,
        data_len: 31,
        bilinear: false,
    };
    assert!(matches!(update_texture_entry(&state, &upd), TextureAction::SkipInvalidData));
}

#[test]
fn stale_update_is_skipped() {
    let state = RenderState::new();
    let set = TextureSet {
        id: 9,
        pos: Some((1, 1)),
        width: 2,
        height: 2,
        data_len: 16,
        bilinear: false,
    };
    let action = update_texture_entry(&state, &set);
    assert!(matches!(action, TextureAction::SkipStale));
    assert_eq!(texture_action_error(&action), None);
}

#[test]
fn update_of_a_held_texture_uses_its_stored_parameters() {
    let mut state = RenderState::new();
    let p = texture_create_params((8, 8), 256, true).unwrap();
    complete_texture_create(&mut state, 3, p, 0x42).unwrap();
    let set = TextureSet {
        id: 3,
        pos: Some((2, 5)),
        width: 4,
        height: 1,
        data_len: 16,
        bilinear: false,
    };
    match update_texture_entry(&state, &set) {
        TextureAction::Update(u) => {
            assert_eq!(u.handle, 0x42);
            assert_eq!((u.x, u.y), (2, 5));
            assert_eq!((u.width, u.height), (4, 1));
            assert_eq!(u.row_length, 4);
            assert_eq!(u.format, 0);
            assert_eq!(u.filtering, 1);
            assert_eq!(u.wrap_mode, 0);
        }
        other => panic!("expected an update, got {:?}", other),
    }
}

#[test]
fn replacing_a_texture_hands_back_the_displaced_handle() {
    let mut state = RenderState::new();
    let p = texture_create_params((2, 2), 16, false).unwrap();
    // First create: nothing displaced.
    assert_eq!(complete_texture_create(&mut state, 1, p, 0x11), Ok(None));
    // A second whole-image set for the same id replaces the entry; the old
    // native handle comes back so the host can release it, exactly once.
    assert_eq!(complete_texture_create(&mut state, 1, p, 0x22), Ok(Some(0x11)));
    assert_eq!(state.textures.len(), 1);
    assert_eq!(state.textures.get(&1).unwrap().bw(), 0x22);
}

#[test]
fn free_releases_each_held_handle_once() {
    let mut state = RenderState::new();
    let p = texture_create_params((2, 2), 16, false).unwrap();
    complete_texture_create(&mut state, 1, p, 0x11).unwrap();
    complete_texture_create(&mut state, 2, p, 0x22).unwrap();
    let released = free_textures(&mut state, &vec![1, 2]);
    assert_eq!(released, vec![0x11, 0x22]);
    assert!(state.textures.get(&1).is_none());
    assert!(state.textures.get(&2).is_none());
}

#[test]
fn freeing_an_absent_id_is_a_no_op() {
    let mut state = RenderState::new();
    let p = texture_create_params((2, 2), 16, false).unwrap();
    complete_texture_create(&mut state, 1, p, 0x11).unwrap();
    let released = free_textures(&mut state, &vec![7, 8]);
    assert!(released.is_empty());
    assert_eq!(state.textures.len(), 1);
    assert_eq!(state.textures.get(&1).unwrap().bw(), 0x11);
}

#[test]
fn freeing_the_same_id_twice_releases_once() {
    let mut state = RenderState::new();
    let p = texture_create_params((2, 2), 16, false).unwrap();
    complete_texture_create(&mut state, 1, p, 0x33).unwrap();
    let released = free_textures(&mut state, &vec![1, 1]);
    assert_eq!(released, vec![0x33]);
    assert!(state.textures.get(&1).is_none());
}
