use acdatservice::compose::LayerRole;
use acdatservice::db::Record;
use acdatservice::error::IconError;
use acdatservice::pipeline::{Action, IconPipeline, Lookup, Stage};
use acdatservice::names::NamedIcon;
use acdatservice::request::{Draws, IconRequest, NameTables, RawRequest};

const TRANSPARENT: i32 = 0x0600_0001;
const BASE_ICON: i32 = 0x0600_0F5A;
const OVER_ICON: i32 = 0x0600_1000;
const UNDER_ICON: i32 = 0x0600_1001;
const MISSING: i32 = 0x0600_dead;
const SHORT: i32 = 0x0600_5555;
const UNREADABLE: i32 = 0x0600_6666;
const BROKEN_STORE: i32 = 0x0600_7777;
const AT_THE_END: i32 = 0x0600_8888;

fn pixels(id: i32) -> Vec<u8> {
    let mut bytes = Vec::with_capacity(4096);
    for i in 0..1024usize {
        let alpha = match id {
            TRANSPARENT => 0,
            BASE_ICON => 255,
            OVER_ICON => if i % 3 == 0 { 255 } else { 0 },
            _ => (i % 256) as u8,
        };
        bytes.push((id as usize + i) as u8);
        bytes.push((id as usize * 7 + i / 3) as u8);
        bytes.push((i * 5) as u8);
        bytes.push(alpha);
    }
    bytes
}

fn catalog(id: i32) -> Lookup {
    match id {
        MISSING => Lookup::NotFound,
        BROKEN_STORE => Lookup::StoreError,
        AT_THE_END => Lookup::Found(Record { id, offset: u64::MAX - 3, length: 4096 }),
        SHORT => Lookup::Found(Record { id, offset: id as u64 * 10_000, length: 100 }),
        _ => Lookup::Found(Record { id, offset: id as u64 * 10_000, length: 4096 }),
    }
}

fn archive(offset: u64, length: u64) -> Option<Vec<u8>> {
    assert_eq!((offset - 8) % 10_000, 0);
    let id = ((offset - 8) / 10_000) as i32;
    if id == UNREADABLE {
        return None;
    }
    let mut bytes = pixels(id);
    bytes.truncate(length as usize);
    Some(bytes)
}

/// Runs one request to its end. `pick` chooses which of the open actions is
/// performed next, so that it decides the order in which the answers come.
fn serve(request: IconRequest, pick: &dyn Fn(usize, usize) -> usize) -> Result<Vec<u8>, IconError> {
    let pipeline = IconPipeline::new();
    assert_eq!(pipeline.stage(), Stage::Resolving);
    let (mut pipeline, mut open) = pipeline.start(request, TRANSPARENT);
    assert_eq!(pipeline.stage(), Stage::FetchingLayers);
    let mut turn = 0usize;
    loop {
        assert!(!open.is_empty(), "the pipeline waits and nothing is open");
        let action = open.remove(pick(turn, open.len()) % open.len());
        turn += 1;
        let (next, action) = match action {
            Action::Lookup { role, id } => pipeline.on_record(role, catalog(id)),
            Action::Fetch { role, offset, length } => pipeline.on_bytes(role, archive(offset, length)),
            Action::Composite => {
                assert_eq!(pipeline.stage(), Stage::Compositing);
                assert!(open.is_empty());
                pipeline.composite()
            }
            Action::Encode => {
                assert_eq!(pipeline.stage(), Stage::Encoding);
                pipeline.encode()
            }
            Action::Respond { png } => {
                assert_eq!(pipeline.stage(), Stage::Done);
                assert_eq!(pipeline.error(), None);
                return Ok(png);
            }
            Action::Fail { error } => {
                assert_eq!(pipeline.stage(), Stage::Error);
                assert_eq!(pipeline.error(), Some(error));
                return Err(error);
            }
            Action::Wait => unreachable!(),
        };
        pipeline = next;
        match action {
            Action::Wait => {}
            other => open.push(other),
        }
    }
}

fn in_order(_turn: usize, _open: usize) -> usize {
    0
}

fn newest_first(_turn: usize, open: usize) -> usize {
    open - 1
}

fn scattered(turn: usize, open: usize) -> usize {
    (turn * 7 + 3) % open
}

fn decoded_png(png: &[u8]) -> (u32, u32, Vec<u8>) {
    let image = image::load_from_memory_with_format(png, image::ImageFormat::Png)
        .unwrap()
        .into_rgba8();
    (image.width(), image.height(), image.into_raw())
}

fn full_request(scale: u32) -> IconRequest {
    IconRequest::new(BASE_ICON, scale)
        .unwrap()
        .with_layer(LayerRole::Underlay, UNDER_ICON)
        .with_layer(LayerRole::Overlay, OVER_ICON)
        .with_layer(LayerRole::Overlay2, 0x0600_2222)
        .with_layer(LayerRole::Background, 0x0600_3333)
        .with_layer(LayerRole::Effect, 0x0600_4444)
}

#[test]
fn start_asks_for_every_layer_from_the_bottom_up() {
    let (pipeline, actions) = IconPipeline::new().start(full_request(1), TRANSPARENT);
    assert_eq!(pipeline.stage(), Stage::FetchingLayers);
    let asked: Vec<(LayerRole, i32)> = actions
        .iter()
        .map(|a| match a {
            Action::Lookup { role, id } => (*role, *id),
            other => panic!("{:?}", other),
        })
        .collect();
    assert_eq!(
        asked,
        vec![
            (LayerRole::Background, 0x0600_3333),
            (LayerRole::Underlay, UNDER_ICON),
            (LayerRole::Base, BASE_ICON),
            (LayerRole::Overlay, OVER_ICON),
            (LayerRole::Overlay2, 0x0600_2222),
            (LayerRole::Effect, 0x0600_4444),
        ]
    );
}

#[test]
fn start_adds_the_default_effect() {
    let request = IconRequest::new(BASE_ICON, 1).unwrap();
    let (_, actions) = IconPipeline::new().start(request, TRANSPARENT);
    assert_eq!(actions.len(), 2);
    assert!(matches!(actions[0], Action::Lookup { role: LayerRole::Base, id: BASE_ICON }));
    assert!(matches!(actions[1], Action::Lookup { role: LayerRole::Effect, id: TRANSPARENT }));
}

#[test]
fn start_twice_is_ignored() {
    let request = IconRequest::new(BASE_ICON, 1).unwrap();
    let (pipeline, _) = IconPipeline::new().start(request, TRANSPARENT);
    let (pipeline, actions) = pipeline.start(full_request(2), TRANSPARENT);
    assert!(actions.is_empty());
    assert_eq!(pipeline.stage(), Stage::FetchingLayers);
    let (pipeline, action) = pipeline.on_record(LayerRole::Overlay, catalog(OVER_ICON));
    assert!(matches!(action, Action::Wait));
    assert_eq!(pipeline.stage(), Stage::FetchingLayers);
}

#[test]
fn fetch_skips_the_header() {
    let request = IconRequest::new(BASE_ICON, 1).unwrap();
    let (pipeline, _) = IconPipeline::new().start(request, TRANSPARENT);
    let (_, action) = pipeline.on_record(
        LayerRole::Base,
        Lookup::Found(Record { id: BASE_ICON, offset: 632715264, length: 4096 }),
    );
    assert!(matches!(
        action,
        Action::Fetch { role: LayerRole::Base, offset: 632715272, length: 4096 }
    ));
}

#[test]
fn base_alone_gives_the_base() {
    let png = serve(IconRequest::new(BASE_ICON, 1).unwrap(), &in_order).unwrap();
    let (w, h, image) = decoded_png(&png);
    assert_eq!((w, h), (32, 32));
    assert_eq!(image, pixels(BASE_ICON));
}

#[test]
fn translucent_base_alone_gives_the_base() {
    // 0x0600_2222 has every alpha from 0 to 255.
    let png = serve(IconRequest::new(0x0600_2222, 1).unwrap(), &scattered).unwrap();
    let (w, h, image) = decoded_png(&png);
    assert_eq!((w, h), (32, 32));
    assert_eq!(image, pixels(0x0600_2222));
}

#[test]
fn every_scale_from_one_to_eight_gives_an_image() {
    for scale in 1..=8 {
        let png = serve(IconRequest::new(BASE_ICON, scale).unwrap(), &in_order).unwrap();
        let (w, h, _) = decoded_png(&png);
        assert_eq!((w, h), (32 * scale, 32 * scale));
    }
}

#[test]
fn completion_order_does_not_change_the_image() {
    for scale in [1, 2, 5, 8] {
        let a = serve(full_request(scale), &in_order).unwrap();
        let b = serve(full_request(scale), &newest_first).unwrap();
        let c = serve(full_request(scale), &scattered).unwrap();
        assert_eq!(a, b);
        assert_eq!(a, c);
        let (w, h, _) = decoded_png(&a);
        assert_eq!((w, h), (32 * scale, 32 * scale));
    }
}

#[test]
fn same_request_twice_gives_the_same_bytes() {
    let first = serve(full_request(3), &scattered).unwrap();
    let second = serve(full_request(3), &scattered).unwrap();
    assert_eq!(first, second);
    let plain = serve(IconRequest::new(BASE_ICON, 3).unwrap(), &in_order).unwrap();
    assert_ne!(first, plain);
}

#[test]
fn layers_change_the_image() {
    let plain = serve(IconRequest::new(BASE_ICON, 1).unwrap(), &in_order).unwrap();
    let over = serve(
        IconRequest::new(BASE_ICON, 1).unwrap().with_layer(LayerRole::Overlay, OVER_ICON),
        &in_order,
    )
    .unwrap();
    let (_, _, image) = decoded_png(&over);
    let base = pixels(BASE_ICON);
    let top = pixels(OVER_ICON);
    for i in 0..1024 {
        let expected = if i % 3 == 0 { &top[4 * i..4 * i + 4] } else { &base[4 * i..4 * i + 4] };
        assert_eq!(&image[4 * i..4 * i + 4], expected);
    }
    assert_ne!(plain, over);
    let under = serve(
        IconRequest::new(BASE_ICON, 1).unwrap().with_layer(LayerRole::Underlay, OVER_ICON),
        &in_order,
    )
    .unwrap();
    assert_eq!(under, plain);
}

#[test]
fn missing_record_ends_the_request() {
    for role in [
        LayerRole::Background,
        LayerRole::Underlay,
        LayerRole::Base,
        LayerRole::Overlay,
        LayerRole::Overlay2,
        LayerRole::Effect,
    ] {
        let request = full_request(1).with_layer(role, MISSING);
        for pick in [&in_order as &dyn Fn(usize, usize) -> usize, &newest_first, &scattered] {
            assert_eq!(serve(request, pick), Err(IconError::RecordNotFound), "{:?}", role);
        }
    }
}

#[test]
fn missing_default_effect_ends_the_request() {
    let request = IconRequest::new(BASE_ICON, 1).unwrap();
    let (pipeline, _) = IconPipeline::new().start(request, MISSING);
    let (pipeline, _) = pipeline.on_record(LayerRole::Base, catalog(BASE_ICON));
    let (pipeline, action) = pipeline.on_record(LayerRole::Effect, catalog(MISSING));
    assert!(matches!(action, Action::Fail { error: IconError::RecordNotFound }));
    assert_eq!(pipeline.stage(), Stage::Error);
}

#[test]
fn nothing_leaves_the_error_stage() {
    let request = IconRequest::new(BASE_ICON, 1).unwrap();
    let (pipeline, _) = IconPipeline::new().start(request, TRANSPARENT);
    let (pipeline, action) = pipeline.on_record(LayerRole::Effect, Lookup::NotFound);
    assert!(matches!(action, Action::Fail { error: IconError::RecordNotFound }));
    let (pipeline, action) = pipeline.on_record(LayerRole::Base, catalog(BASE_ICON));
    assert!(matches!(action, Action::Wait));
    let (pipeline, action) = pipeline.on_bytes(LayerRole::Base, Some(pixels(BASE_ICON)));
    assert!(matches!(action, Action::Wait));
    let (pipeline, action) = pipeline.composite();
    assert!(matches!(action, Action::Wait));
    let (pipeline, action) = pipeline.encode();
    assert!(matches!(action, Action::Wait));
    let (pipeline, actions) = pipeline.start(request, TRANSPARENT);
    assert!(actions.is_empty());
    let (pipeline, action) = pipeline.reject(IconError::InvalidScale);
    assert!(matches!(action, Action::Wait));
    assert_eq!(pipeline.stage(), Stage::Error);
    assert_eq!(pipeline.error(), Some(IconError::RecordNotFound));
}

#[test]
fn each_failure_behind_the_service() {
    let with = |id: i32| IconRequest::new(BASE_ICON, 1).unwrap().with_layer(LayerRole::Overlay, id);
    assert_eq!(serve(with(BROKEN_STORE), &in_order), Err(IconError::FetchFailure));
    assert_eq!(serve(with(AT_THE_END), &in_order), Err(IconError::FetchFailure));
    assert_eq!(serve(with(UNREADABLE), &in_order), Err(IconError::FetchFailure));
    assert_eq!(serve(with(SHORT), &in_order), Err(IconError::DecodeFailure));
    assert_eq!(serve(with(MISSING), &in_order), Err(IconError::RecordNotFound));
    assert!(serve(with(OVER_ICON), &in_order).is_ok());
}

#[test]
fn first_failure_decides_the_error() {
    let request = IconRequest::new(BASE_ICON, 1)
        .unwrap()
        .with_layer(LayerRole::Background, MISSING)
        .with_layer(LayerRole::Effect, BROKEN_STORE);
    assert_eq!(serve(request, &in_order), Err(IconError::RecordNotFound));
    assert_eq!(serve(request, &newest_first), Err(IconError::FetchFailure));
}

#[test]
fn rejected_request_is_an_error() {
    let (pipeline, action) = IconPipeline::new().reject(IconError::InvalidIdentifier);
    assert!(matches!(action, Action::Fail { error: IconError::InvalidIdentifier }));
    assert_eq!(pipeline.stage(), Stage::Error);
    assert_eq!(pipeline.error(), Some(IconError::InvalidIdentifier));
}

#[test]
fn unexpected_answers_are_ignored() {
    let request = IconRequest::new(BASE_ICON, 1).unwrap();
    let pipeline = IconPipeline::new();
    let (pipeline, action) = pipeline.on_record(LayerRole::Base, catalog(BASE_ICON));
    assert!(matches!(action, Action::Wait));
    let (pipeline, action) = pipeline.composite();
    assert!(matches!(action, Action::Wait));
    let (pipeline, action) = pipeline.encode();
    assert!(matches!(action, Action::Wait));
    assert_eq!(pipeline.stage(), Stage::Resolving);
    let (pipeline, _) = pipeline.start(request, TRANSPARENT);
    // Bytes before the record, and an answer for a layer that was not asked for.
    let (pipeline, action) = pipeline.on_bytes(LayerRole::Base, None);
    assert!(matches!(action, Action::Wait));
    let (pipeline, action) = pipeline.on_record(LayerRole::Underlay, Lookup::NotFound);
    assert!(matches!(action, Action::Wait));
    let (pipeline, action) = pipeline.on_record(LayerRole::Base, catalog(BASE_ICON));
    assert!(matches!(action, Action::Fetch { .. }));
    // A second record for the same layer.
    let (pipeline, action) = pipeline.on_record(LayerRole::Base, Lookup::NotFound);
    assert!(matches!(action, Action::Wait));
    let (pipeline, action) = pipeline.on_bytes(LayerRole::Base, Some(pixels(BASE_ICON)));
    assert!(matches!(action, Action::Wait));
    let (pipeline, action) = pipeline.on_bytes(LayerRole::Base, Some(vec![1, 2, 3]));
    assert!(matches!(action, Action::Wait));
    assert_eq!(pipeline.stage(), Stage::FetchingLayers);
    let (pipeline, _) = pipeline.on_record(LayerRole::Effect, catalog(TRANSPARENT));
    let (pipeline, action) = pipeline.encode();
    assert!(matches!(action, Action::Wait));
    let (pipeline, action) = pipeline.on_bytes(LayerRole::Effect, Some(pixels(TRANSPARENT)));
    assert!(matches!(action, Action::Composite));
    assert_eq!(pipeline.stage(), Stage::Compositing);
    let (pipeline, action) = pipeline.on_bytes(LayerRole::Effect, None);
    assert!(matches!(action, Action::Wait));
    let (pipeline, action) = pipeline.composite();
    assert!(matches!(action, Action::Encode));
    assert_eq!(pipeline.stage(), Stage::Encoding);
    let (pipeline, action) = pipeline.composite();
    assert!(matches!(action, Action::Wait));
    let (pipeline, action) = pipeline.encode();
    let png = match action {
        Action::Respond { png } => png,
        other => panic!("{:?}", other),
    };
    assert_eq!(decoded_png(&png).2, pixels(BASE_ICON));
    assert_eq!(pipeline.stage(), Stage::Done);
    let (pipeline, action) = pipeline.encode();
    assert!(matches!(action, Action::Wait));
    assert_eq!(pipeline.stage(), Stage::Done);
}

fn raw(icon_id: &str) -> RawRequest {
    RawRequest {
        icon_id: icon_id.to_string(),
        scale: None,
        background: None,
        underlay: None,
        overlay: None,
        overlay2: None,
        ui_effect: None,
    }
}

fn names() -> NameTables {
    NameTables {
        backgrounds: vec![NamedIcon { name: "fire".to_string(), id: 0x0600_3333 }],
        effects: vec![NamedIcon { name: "magical".to_string(), id: 0x0600_4444 }],
    }
}

#[test]
fn resolving_starts_the_chains() {
    let mut r = raw("0x0F5A");
    r.scale = Some("2".to_string());
    r.background = Some("FIRE".to_string());
    r.overlay = Some("4096".to_string());
    let draws = Draws { background: 0, effect: 0 };
    let (pipeline, actions) = IconPipeline::new().resolve(&r, &names(), draws, TRANSPARENT);
    assert_eq!(pipeline.stage(), Stage::FetchingLayers);
    let asked: Vec<(LayerRole, i32)> = actions
        .iter()
        .map(|a| match a {
            Action::Lookup { role, id } => (*role, *id),
            other => panic!("{:?}", other),
        })
        .collect();
    assert_eq!(
        asked,
        vec![
            (LayerRole::Background, 0x0600_3333),
            (LayerRole::Base, BASE_ICON),
            (LayerRole::Overlay, OVER_ICON),
            (LayerRole::Effect, TRANSPARENT),
        ]
    );
    let (pipeline, again) = pipeline.resolve(&r, &names(), draws, TRANSPARENT);
    assert!(again.is_empty());
    assert_eq!(pipeline.stage(), Stage::FetchingLayers);
}

#[test]
fn resolving_fails_on_the_first_bad_part() {
    let draws = Draws { background: 0, effect: 0 };
    let cases: [(fn(&mut RawRequest), IconError); 5] = [
        (|r| r.icon_id = "text".to_string(), IconError::InvalidIdentifier),
        (|r| r.scale = Some("0".to_string()), IconError::InvalidScale),
        (|r| r.scale = Some("9".to_string()), IconError::InvalidScale),
        (|r| r.ui_effect = Some("glow".to_string()), IconError::InvalidSymbolicName),
        (|r| r.overlay2 = Some("0x1".to_string()), IconError::InvalidIdentifier),
    ];
    for (spoil, expected) in cases {
        let mut r = raw("3930");
        spoil(&mut r);
        let (pipeline, actions) = IconPipeline::new().resolve(&r, &names(), draws, TRANSPARENT);
        assert_eq!(pipeline.stage(), Stage::Error);
        assert_eq!(pipeline.error(), Some(expected));
        assert_eq!(actions.len(), 1);
        assert!(matches!(actions[0], Action::Fail { error } if error == expected));
    }
}
