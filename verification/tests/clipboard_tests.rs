use sidecar_host::clipboard::{
    build_candidates, normalize_path, prepare_image, resolve_candidates, select_candidate,
    BridgeError,
};

#[test]
fn resolution_runs_normalization_then_candidates() {
    let cands = resolve_candidates(
        b" file://localhost/tmp/x.png ",
        &Some(b"/data".to_vec()),
        &None,
        &None,
    )
    .unwrap();
    assert_eq!(cands, vec![b"/tmp/x.png".to_vec()]);

    let cands = resolve_candidates(b"a.png", &Some(b"/data".to_vec()), &None, &None).unwrap();
    assert_eq!(cands, vec![b"/data/a.png".to_vec(), b"a.png".to_vec()]);

    assert_eq!(
        resolve_candidates(b"  ", &None, &None, &None),
        Err(BridgeError::EmptyPath)
    );
}

#[test]
fn empty_path_is_rejected() {
    assert_eq!(normalize_path(b""), Err(BridgeError::EmptyPath));
    assert_eq!(normalize_path(b"   "), Err(BridgeError::EmptyPath));
    assert_eq!(normalize_path(b" \t\r\n "), Err(BridgeError::EmptyPath));
}

#[test]
fn file_localhost_url_is_normalized() {
    let r = normalize_path(b"file://localhost/tmp/x.png").unwrap();
    assert_eq!(r, b"/tmp/x.png".to_vec());
}

#[test]
fn bare_file_url_is_normalized() {
    let r = normalize_path(b"file:///tmp/x.png").unwrap();
    assert_eq!(r, b"/tmp/x.png".to_vec());
}

#[test]
fn plain_path_passes_through_trimmed() {
    let r = normalize_path(b"  storage/a.jpg \n").unwrap();
    assert_eq!(r, b"storage/a.jpg".to_vec());
    let r = normalize_path(b"/abs/b.png").unwrap();
    assert_eq!(r, b"/abs/b.png".to_vec());
}

#[test]
fn absolute_path_is_sole_candidate() {
    let cands = build_candidates(
        &b"/tmp/x.png".to_vec(),
        &Some(b"/data".to_vec()),
        &Some(b"/cwd".to_vec()),
        &Some(b"/res".to_vec()),
    );
    assert_eq!(cands, vec![b"/tmp/x.png".to_vec()]);
}

#[test]
fn relative_path_candidates_keep_their_order() {
    let cands = build_candidates(
        &b"storage/a.jpg".to_vec(),
        &Some(b"/data".to_vec()),
        &Some(b"/cwd".to_vec()),
        &Some(b"/res/".to_vec()),
    );
    assert_eq!(
        cands,
        vec![
            b"/data/storage/a.jpg".to_vec(),
            b"/cwd/storage/a.jpg".to_vec(),
            b"/res/storage/a.jpg".to_vec(),
            b"storage/a.jpg".to_vec(),
        ]
    );
}

#[test]
fn missing_directories_are_skipped() {
    let cands = build_candidates(
        &b"a.png".to_vec(),
        &None,
        &Some(b"/cwd".to_vec()),
        &None,
    );
    assert_eq!(cands, vec![b"/cwd/a.png".to_vec(), b"a.png".to_vec()]);
}

#[test]
fn first_existing_candidate_is_selected() {
    assert_eq!(select_candidate(&vec![false, true, true, false]), 1);
    assert_eq!(select_candidate(&vec![true, false]), 0);
    assert_eq!(select_candidate(&vec![false, false, false, true]), 3);
}

#[test]
fn no_existing_candidate_falls_back_to_the_first() {
    // The read that follows then fails while naming a concrete path.
    let cands = build_candidates(
        &b"storage/a.jpg".to_vec(),
        &Some(b"/data".to_vec()),
        &Some(b"/cwd".to_vec()),
        &Some(b"/res".to_vec()),
    );
    let flags = vec![false; cands.len()];
    let picked = select_candidate(&flags);
    assert_eq!(picked, 0);
    assert_eq!(cands[picked], b"/data/storage/a.jpg".to_vec());
}

#[test]
fn valid_png_decodes_with_exact_dimensions() {
    let mut img = image::RgbaImage::new(3, 2);
    for (x, y, p) in img.enumerate_pixels_mut() {
        *p = image::Rgba([x as u8 * 10, y as u8 * 10, 200, 255]);
    }
    let expected: Vec<u8> = img.as_raw().clone();
    let mut bytes: Vec<u8> = Vec::new();
    img.write_to(&mut std::io::Cursor::new(&mut bytes), image::ImageFormat::Png)
        .unwrap();

    let decoded = prepare_image(&bytes).unwrap();
    assert_eq!(decoded.width, 3);
    assert_eq!(decoded.height, 2);
    assert_eq!(decoded.pixels.len(), 4 * 3 * 2);
    assert_eq!(decoded.pixels, expected);
}

#[test]
fn undecodable_bytes_are_a_decode_failure() {
    assert!(matches!(
        prepare_image(b"not an image at all"),
        Err(BridgeError::DecodeFailed(_))
    ));
    match prepare_image(b"") {
        Err(BridgeError::DecodeFailed(msg)) => assert!(!msg.is_empty()),
        other => panic!("expected a decode failure, got {:?}", other),
    }
}
