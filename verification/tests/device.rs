use legacy_drm::catalogue::{
    Catalogue, ConnectorInfo, CrtcInfo, CrtcListFilter, EncoderInfo, ResourceHandles,
};
use legacy_drm::connectors::ConnectorSet;
use legacy_drm::device::{EventRead, LegacyDrmDevice, Teardown};
use legacy_drm::error::Error;
use legacy_drm::handle::{ConnectorHandle, CrtcHandle, EncoderHandle, FramebufferHandle};
use legacy_drm::mode::Mode;
use legacy_drm::session::SessionObserver;
use legacy_drm::state::{Event, HandlerCall};

type Device = LegacyDrmDevice<Vec<HandlerCall>>;

fn mode(width: u16, height: u16, refresh: u32) -> Mode {
    Mode {
        clock: 148_500,
        hdisplay: width,
        hsync_start: width + 88,
        hsync_end: width + 132,
        htotal: width + 280,
        hskew: 0,
        vdisplay: height,
        vsync_start: height + 4,
        vsync_end: height + 9,
        vtotal: height + 45,
        vscan: 0,
        vrefresh: refresh,
        flags: 5,
        kind: 64,
    }
}

fn crtc_info(handle: u32, fb: u32) -> CrtcInfo {
    CrtcInfo {
        handle: CrtcHandle(handle),
        position: (0, 0),
        mode: Some(mode(1920, 1080, 60)),
        fb: FramebufferHandle(fb),
    }
}

/// Two CRTCs (10 at position 0, 11 at position 1), three connectors, three
/// encoders. Connector 30 and 32 are driven by CRTC 10 (through encoders 20
/// and 22), connector 31 is not driven. Encoder 20 can go on any of the two
/// CRTCs, encoder 21 on CRTC 11 only, encoder 22 on CRTC 10 only.
fn catalogue() -> Catalogue {
    Catalogue {
        resources: Some(ResourceHandles {
            connectors: vec![ConnectorHandle(30), ConnectorHandle(31), ConnectorHandle(32)],
            encoders: vec![EncoderHandle(20), EncoderHandle(21), EncoderHandle(22)],
            crtcs: vec![CrtcHandle(10), CrtcHandle(11)],
        }),
        connectors: vec![
            ConnectorInfo {
                handle: ConnectorHandle(30),
                modes: vec![mode(1920, 1080, 60), mode(1280, 720, 60)],
                current_encoder: Some(EncoderHandle(20)),
                encoders: vec![EncoderHandle(20)],
            },
            ConnectorInfo {
                handle: ConnectorHandle(31),
                modes: vec![mode(1920, 1080, 60)],
                current_encoder: None,
                encoders: vec![EncoderHandle(21)],
            },
            ConnectorInfo {
                handle: ConnectorHandle(32),
                modes: vec![mode(1920, 1080, 60), mode(1024, 768, 75)],
                current_encoder: Some(EncoderHandle(22)),
                encoders: vec![EncoderHandle(22), EncoderHandle(21)],
            },
        ],
        encoders: vec![
            EncoderInfo {
                handle: EncoderHandle(20),
                current_crtc: Some(CrtcHandle(10)),
                possible_crtcs: CrtcListFilter(0b11),
            },
            EncoderInfo {
                handle: EncoderHandle(21),
                current_crtc: None,
                possible_crtcs: CrtcListFilter(0b10),
            },
            EncoderInfo {
                handle: EncoderHandle(22),
                current_crtc: Some(CrtcHandle(10)),
                possible_crtcs: CrtcListFilter(0b01),
            },
        ],
        crtcs: vec![crtc_info(10, 70), crtc_info(11, 0)],
    }
}

fn open() -> Device {
    Device::new(Some(0xe200), true, &catalogue()).expect("the device opens")
}

fn set(handles: &[u32]) -> ConnectorSet {
    ConnectorSet::from_vec(&handles.iter().map(|h| ConnectorHandle(*h)).collect())
}

#[test]
fn new_device_is_active_and_empty() {
    let device = open();
    assert_eq!(device.dev_id(), 0xe200);
    assert!(device.is_active());
    assert!(device.is_privileged());
    assert_eq!(device.surface_entry(CrtcHandle(10)), None);
    assert_eq!(device.surface_entry(CrtcHandle(11)), None);
}

#[test]
fn new_without_mastership_is_unprivileged() {
    let device = Device::new(Some(7), false, &catalogue()).expect("the device opens");
    assert!(!device.is_privileged());
    assert!(device.is_active());
    assert_eq!(device.dev_id(), 7);
}

#[test]
fn new_fails_when_node_is_not_identified() {
    let res = Device::new(None, true, &catalogue());
    assert!(matches!(res, Err(Error::DeviceIdentification)));
}

#[test]
fn new_fails_when_handle_lists_are_missing() {
    let mut catalogue = catalogue();
    catalogue.resources = None;
    let res = Device::new(Some(1), true, &catalogue);
    assert!(matches!(res, Err(Error::ResourceCatalogRead)));
}

#[test]
fn new_prefers_identification_failure() {
    let mut catalogue = catalogue();
    catalogue.resources = None;
    let res = Device::new(None, true, &catalogue);
    assert!(matches!(res, Err(Error::DeviceIdentification)));
}

#[test]
fn new_fails_when_connector_is_not_described() {
    let mut catalogue = catalogue();
    catalogue.connectors.remove(1);
    let res = Device::new(Some(1), true, &catalogue);
    assert_eq!(res.err(), Some(Error::ConnectorInfoLoad(ConnectorHandle(31))));
}

#[test]
fn new_fails_when_current_encoder_is_not_described() {
    let mut catalogue = catalogue();
    catalogue.encoders.remove(2);
    let res = Device::new(Some(1), true, &catalogue);
    assert_eq!(res.err(), Some(Error::EncoderInfoLoad(EncoderHandle(22))));
}

#[test]
fn new_fails_when_current_crtc_is_not_described() {
    let mut catalogue = catalogue();
    catalogue.crtcs.remove(0);
    let res = Device::new(Some(1), true, &catalogue);
    assert_eq!(res.err(), Some(Error::CrtcInfoLoad(CrtcHandle(10))));
}

#[test]
fn new_reports_the_first_failure_in_connector_order() {
    let mut catalogue = catalogue();
    // connector 30 needs CRTC 10, connector 31 is not described at all
    catalogue.crtcs.remove(0);
    catalogue.connectors.remove(1);
    let res = Device::new(Some(1), true, &catalogue);
    assert_eq!(res.err(), Some(Error::CrtcInfoLoad(CrtcHandle(10))));
}

#[test]
fn new_ignores_descriptions_that_are_not_on_the_way() {
    let mut catalogue = catalogue();
    // encoder 21 is nobody's current encoder, CRTC 11 drives nothing
    catalogue.encoders.remove(1);
    catalogue.crtcs.remove(1);
    assert!(Device::new(Some(1), true, &catalogue).is_ok());
}

#[test]
fn snapshot_matches_wiring_at_open() {
    let device = open();
    let snapshot = device.old_state();
    assert_eq!(snapshot.len(), 1);
    let entry = snapshot.get(0).expect("one entry");
    assert_eq!(entry.crtc, CrtcHandle(10));
    assert_eq!(entry.info, crtc_info(10, 70));
    assert_eq!(entry.connectors, vec![ConnectorHandle(30), ConnectorHandle(32)]);
    assert!(snapshot.get(1).is_none());
}

#[test]
fn snapshot_lists_crtcs_in_order_of_first_connector() {
    let mut catalogue = catalogue();
    catalogue.connectors[1].current_encoder = Some(EncoderHandle(21));
    catalogue.encoders[1].current_crtc = Some(CrtcHandle(11));
    catalogue.resources = Some(ResourceHandles {
        connectors: vec![ConnectorHandle(31), ConnectorHandle(32), ConnectorHandle(30)],
        encoders: vec![EncoderHandle(20), EncoderHandle(21), EncoderHandle(22)],
        crtcs: vec![CrtcHandle(10), CrtcHandle(11)],
    });
    let device = Device::new(Some(1), true, &catalogue).expect("the device opens");
    let snapshot = device.old_state();
    assert_eq!(snapshot.len(), 2);
    let first = snapshot.get(0).expect("first entry");
    assert_eq!(first.crtc, CrtcHandle(11));
    assert_eq!(first.info, crtc_info(11, 0));
    assert_eq!(first.connectors, vec![ConnectorHandle(31)]);
    let second = snapshot.get(1).expect("second entry");
    assert_eq!(second.crtc, CrtcHandle(10));
    assert_eq!(second.connectors, vec![ConnectorHandle(32), ConnectorHandle(30)]);
}

#[test]
fn create_surface_succeeds_and_registers() {
    let mut device = open();
    let wanted = mode(1280, 720, 60);
    let surface = device
        .create_surface(CrtcHandle(10), wanted, set(&[30]), &catalogue())
        .expect("the surface is made");
    assert_eq!(surface.crtc(), CrtcHandle(10));
    assert_eq!(surface.current_state().mode, wanted);
    assert_eq!(surface.pending_state().mode, wanted);
    assert_eq!(surface.current_state().connectors.to_vec(), vec![ConnectorHandle(30)]);
    assert_eq!(surface.pending_state().connectors.to_vec(), vec![ConnectorHandle(30)]);
    assert_eq!(device.surface_entry(CrtcHandle(10)), Some(true));
    assert_eq!(device.surface_entry(CrtcHandle(11)), None);
}

#[test]
fn second_surface_on_held_crtc_is_refused_until_release() {
    let mut device = open();
    let catalogue = catalogue();
    let wanted = mode(1920, 1080, 60);
    let first = device
        .create_surface(CrtcHandle(10), wanted, set(&[30]), &catalogue)
        .expect("the first surface is made");
    let second = device.create_surface(CrtcHandle(10), wanted, set(&[32]), &catalogue);
    assert_eq!(second.err(), Some(Error::CrtcAlreadyInUse(CrtcHandle(10))));
    // even a request that the hardware could not serve is answered so
    let third = device.create_surface(CrtcHandle(10), mode(640, 480, 60), set(&[99]), &catalogue);
    assert_eq!(third.err(), Some(Error::CrtcAlreadyInUse(CrtcHandle(10))));
    assert!(device.release_surface(first));
    assert_eq!(device.surface_entry(CrtcHandle(10)), Some(false));
    let again = device.create_surface(CrtcHandle(10), wanted, set(&[32]), &catalogue);
    assert!(again.is_ok());
    assert_eq!(device.surface_entry(CrtcHandle(10)), Some(true));
}

#[test]
fn surfaces_on_different_crtcs_coexist() {
    let mut device = open();
    let catalogue = catalogue();
    let wanted = mode(1920, 1080, 60);
    let a = device.create_surface(CrtcHandle(10), wanted, set(&[30]), &catalogue);
    let b = device.create_surface(CrtcHandle(11), wanted, set(&[31]), &catalogue);
    assert!(a.is_ok());
    assert!(b.is_ok());
    assert_eq!(device.surface_entry(CrtcHandle(10)), Some(true));
    assert_eq!(device.surface_entry(CrtcHandle(11)), Some(true));
}

#[test]
fn release_of_unknown_surface_changes_nothing() {
    let mut device = open();
    let mut other = open();
    let catalogue = catalogue();
    let surface = other
        .create_surface(CrtcHandle(11), mode(1920, 1080, 60), set(&[31]), &catalogue)
        .expect("the surface is made");
    assert!(!device.release_surface(surface));
    assert_eq!(device.surface_entry(CrtcHandle(11)), None);
}

#[test]
fn create_surface_on_paused_device_is_refused() {
    let mut device = open();
    device.pause(None);
    let res = device.create_surface(CrtcHandle(10), mode(1920, 1080, 60), set(&[30]), &catalogue());
    assert_eq!(res.err(), Some(Error::DeviceInactive));
    assert_eq!(device.surface_entry(CrtcHandle(10)), None);
    device.activate(None);
    let res = device.create_surface(CrtcHandle(10), mode(1920, 1080, 60), set(&[30]), &catalogue());
    assert!(res.is_ok());
}

#[test]
fn held_crtc_is_reported_before_pause() {
    let mut device = open();
    let catalogue = catalogue();
    let _held = device
        .create_surface(CrtcHandle(10), mode(1920, 1080, 60), set(&[30]), &catalogue)
        .expect("the surface is made");
    device.pause(None);
    let res = device.create_surface(CrtcHandle(10), mode(1920, 1080, 60), set(&[30]), &catalogue);
    assert_eq!(res.err(), Some(Error::CrtcAlreadyInUse(CrtcHandle(10))));
}

#[test]
fn unsupported_mode_is_refused_and_leaves_device_alone() {
    let mut device = open();
    let odd = mode(3840, 2160, 30);
    let res = device.create_surface(CrtcHandle(10), odd, set(&[30, 32]), &catalogue());
    assert_eq!(res.err(), Some(Error::ModeNotSuitable(odd)));
    assert_eq!(device.surface_entry(CrtcHandle(10)), None);
    assert!(device.is_active());
    assert_eq!(device.old_state().len(), 1);
}

#[test]
fn mode_differing_in_one_field_is_another_mode() {
    let mut device = open();
    let mut near = mode(1920, 1080, 60);
    near.flags = 6;
    let res = device.create_surface(CrtcHandle(10), near, set(&[30]), &catalogue());
    assert_eq!(res.err(), Some(Error::ModeNotSuitable(near)));
}

#[test]
fn mode_must_be_supported_by_every_connector() {
    let mut device = open();
    // 1280x720 is a mode of connector 30 but not of connector 32
    let wanted = mode(1280, 720, 60);
    let res = device.create_surface(CrtcHandle(10), wanted, set(&[30, 32]), &catalogue());
    assert_eq!(res.err(), Some(Error::ModeNotSuitable(wanted)));
}

#[test]
fn undrivable_crtc_is_refused_naming_the_connector() {
    let mut device = open();
    // connector 31 has encoder 21 only, which goes on CRTC 11 only
    let res = device.create_surface(CrtcHandle(10), mode(1920, 1080, 60), set(&[31]), &catalogue());
    assert_eq!(
        res.err(),
        Some(Error::NoSuitableEncoder { connector: ConnectorHandle(31), crtc: CrtcHandle(10) })
    );
    assert_eq!(device.surface_entry(CrtcHandle(10)), None);
}

#[test]
fn second_connector_without_encoder_is_named() {
    let mut device = open();
    let res =
        device.create_surface(CrtcHandle(10), mode(1920, 1080, 60), set(&[30, 31]), &catalogue());
    assert_eq!(
        res.err(),
        Some(Error::NoSuitableEncoder { connector: ConnectorHandle(31), crtc: CrtcHandle(10) })
    );
}

#[test]
fn any_encoder_of_the_connector_will_do() {
    let mut device = open();
    // connector 32 reaches CRTC 10 through encoder 22 and CRTC 11 through encoder 21
    let catalogue = catalogue();
    let wanted = mode(1920, 1080, 60);
    assert!(device.create_surface(CrtcHandle(10), wanted, set(&[32]), &catalogue).is_ok());
    assert!(device.create_surface(CrtcHandle(11), wanted, set(&[32]), &catalogue).is_ok());
}

#[test]
fn crtc_outside_the_device_list_is_not_drivable() {
    let mut device = open();
    let res = device.create_surface(CrtcHandle(12), mode(1920, 1080, 60), set(&[30]), &catalogue());
    assert_eq!(
        res.err(),
        Some(Error::NoSuitableEncoder { connector: ConnectorHandle(30), crtc: CrtcHandle(12) })
    );
}

#[test]
fn connector_without_encoders_is_not_drivable() {
    let mut device = open();
    let mut catalogue = catalogue();
    catalogue.connectors[0].encoders.clear();
    let res = device.create_surface(CrtcHandle(10), mode(1920, 1080, 60), set(&[30]), &catalogue);
    assert_eq!(
        res.err(),
        Some(Error::NoSuitableEncoder { connector: ConnectorHandle(30), crtc: CrtcHandle(10) })
    );
}

#[test]
fn create_surface_fails_when_connector_is_not_described() {
    let mut device = open();
    let res = device.create_surface(CrtcHandle(10), mode(1920, 1080, 60), set(&[99]), &catalogue());
    assert_eq!(res.err(), Some(Error::ConnectorInfoLoad(ConnectorHandle(99))));
}

#[test]
fn create_surface_fails_when_an_encoder_is_not_described() {
    let mut device = open();
    let mut catalogue = catalogue();
    // connector 32 lists encoders 22 and 21; 22 alone would do, but 21 is missing
    catalogue.encoders.remove(1);
    let res = device.create_surface(CrtcHandle(10), mode(1920, 1080, 60), set(&[32]), &catalogue);
    assert_eq!(res.err(), Some(Error::EncoderInfoLoad(EncoderHandle(21))));
}

#[test]
fn first_missing_encoder_is_named() {
    let mut device = open();
    let mut catalogue = catalogue();
    // connector 32 lists encoders 22 and 21, in this order; neither is described
    catalogue.encoders.truncate(1);
    let res = device.create_surface(CrtcHandle(10), mode(1920, 1080, 60), set(&[32]), &catalogue);
    assert_eq!(res.err(), Some(Error::EncoderInfoLoad(EncoderHandle(22))));
}

#[test]
fn admission_is_decided_before_the_hardware_is_asked() {
    let mut device = open();
    let catalogue = catalogue();
    assert_eq!(device.admission_failure(CrtcHandle(10)), None);
    let held = device
        .create_surface(CrtcHandle(10), mode(1920, 1080, 60), set(&[30]), &catalogue)
        .expect("the surface is made");
    assert_eq!(
        device.admission_failure(CrtcHandle(10)),
        Some(Error::CrtcAlreadyInUse(CrtcHandle(10)))
    );
    assert_eq!(device.admission_failure(CrtcHandle(11)), None);
    device.pause(None);
    // a held CRTC is named before the pause is
    assert_eq!(
        device.admission_failure(CrtcHandle(10)),
        Some(Error::CrtcAlreadyInUse(CrtcHandle(10)))
    );
    assert_eq!(device.admission_failure(CrtcHandle(11)), Some(Error::DeviceInactive));
    assert!(device.release_surface(held));
    // a stale entry holds nobody up
    assert_eq!(device.admission_failure(CrtcHandle(10)), Some(Error::DeviceInactive));
    device.activate(None);
    assert_eq!(device.admission_failure(CrtcHandle(10)), None);
}

#[test]
fn create_surface_fails_when_handle_lists_are_missing() {
    let mut device = open();
    let mut catalogue = catalogue();
    catalogue.resources = None;
    let res = device.create_surface(CrtcHandle(10), mode(1920, 1080, 60), set(&[30]), &catalogue);
    assert_eq!(res.err(), Some(Error::ResourceCatalogRead));
}

#[test]
fn create_surface_asks_in_order() {
    let mut device = open();
    let mut catalogue = catalogue();
    catalogue.resources = None;
    catalogue.encoders.clear();
    // the mode is asked before the encoders, the encoders before the lists
    let odd = mode(800, 600, 60);
    let res = device.create_surface(CrtcHandle(10), odd, set(&[30]), &catalogue);
    assert_eq!(res.err(), Some(Error::ModeNotSuitable(odd)));
    let res = device.create_surface(CrtcHandle(10), mode(1920, 1080, 60), set(&[30]), &catalogue);
    assert_eq!(res.err(), Some(Error::EncoderInfoLoad(EncoderHandle(20))));
    // and the first connector before the second
    let res = device.create_surface(CrtcHandle(10), odd, set(&[99, 30]), &catalogue);
    assert_eq!(res.err(), Some(Error::ConnectorInfoLoad(ConnectorHandle(99))));
    let res = device.create_surface(CrtcHandle(10), odd, set(&[30, 99]), &catalogue);
    assert_eq!(res.err(), Some(Error::ModeNotSuitable(odd)));
}

#[test]
fn create_surface_without_connectors_passes() {
    let mut device = open();
    let mut catalogue = catalogue();
    catalogue.resources = None;
    let odd = mode(800, 600, 60);
    let surface = device
        .create_surface(CrtcHandle(77), odd, ConnectorSet::new(), &catalogue)
        .expect("nothing to object to");
    assert_eq!(surface.crtc(), CrtcHandle(77));
    assert!(surface.current_state().connectors.is_empty());
    assert_eq!(device.surface_entry(CrtcHandle(77)), Some(true));
}

#[test]
fn surface_keeps_the_connectors_once_each() {
    let mut device = open();
    let surface = device
        .create_surface(CrtcHandle(10), mode(1920, 1080, 60), set(&[32, 30, 32]), &catalogue())
        .expect("the surface is made");
    assert_eq!(
        surface.current_state().connectors.to_vec(),
        vec![ConnectorHandle(32), ConnectorHandle(30)]
    );
}

fn device_with_surface_and_handler() -> (Device, legacy_drm::surface::LegacyDrmSurface) {
    let mut device = open();
    let surface = device
        .create_surface(CrtcHandle(10), mode(1920, 1080, 60), set(&[30]), &catalogue())
        .expect("the surface is made");
    device.set_handler(Vec::new());
    (device, surface)
}

#[test]
fn page_flip_for_held_surface_is_completed() {
    let (mut device, _surface) = device_with_surface_and_handler();
    let read = EventRead::Batch(vec![Event::PageFlip(CrtcHandle(10))]);
    let calls = device.process_events(&read);
    assert_eq!(calls, vec![HandlerCall::Completion(CrtcHandle(10))]);
    assert_eq!(device.surface_entry(CrtcHandle(10)), Some(true));
}

#[test]
fn completions_follow_the_order_of_the_batch() {
    let (mut device, _a) = device_with_surface_and_handler();
    let _b = device
        .create_surface(CrtcHandle(11), mode(1920, 1080, 60), set(&[31]), &catalogue())
        .expect("the surface is made");
    let read = EventRead::Batch(vec![
        Event::PageFlip(CrtcHandle(11)),
        Event::Vblank(CrtcHandle(10)),
        Event::PageFlip(CrtcHandle(10)),
        Event::Unknown,
        Event::PageFlip(CrtcHandle(12)),
        Event::PageFlip(CrtcHandle(11)),
    ]);
    let calls = device.process_events(&read);
    assert_eq!(
        calls,
        vec![
            HandlerCall::Completion(CrtcHandle(11)),
            HandlerCall::Completion(CrtcHandle(10)),
            HandlerCall::Completion(CrtcHandle(11)),
        ]
    );
}

#[test]
fn paused_device_completes_nothing() {
    let (mut device, surface) = device_with_surface_and_handler();
    let released = device
        .create_surface(CrtcHandle(11), mode(1920, 1080, 60), set(&[31]), &catalogue())
        .expect("the surface is made");
    device.release_surface(released);
    device.pause(None);
    let read = EventRead::Batch(vec![
        Event::PageFlip(CrtcHandle(10)),
        Event::PageFlip(CrtcHandle(11)),
    ]);
    let calls = device.process_events(&read);
    assert_eq!(calls, vec![]);
    // nothing is pruned either
    assert_eq!(device.surface_entry(CrtcHandle(10)), Some(true));
    assert_eq!(device.surface_entry(CrtcHandle(11)), Some(false));
    // the batch is gone for good: a resume brings nothing back
    device.activate(None);
    let calls = device.process_events(&EventRead::Batch(vec![]));
    assert_eq!(calls, vec![]);
    assert_eq!(surface.crtc(), CrtcHandle(10));
}

#[test]
fn page_flip_for_released_surface_prunes_the_entry() {
    let (mut device, surface) = device_with_surface_and_handler();
    device.release_surface(surface);
    assert_eq!(device.surface_entry(CrtcHandle(10)), Some(false));
    let read = EventRead::Batch(vec![Event::Vblank(CrtcHandle(10)), Event::Unknown]);
    assert_eq!(device.process_events(&read), vec![]);
    assert_eq!(device.surface_entry(CrtcHandle(10)), Some(false));
    let read = EventRead::Batch(vec![Event::PageFlip(CrtcHandle(10))]);
    assert_eq!(device.process_events(&read), vec![]);
    assert_eq!(device.surface_entry(CrtcHandle(10)), None);
}

#[test]
fn page_flip_for_unknown_crtc_is_passed_over() {
    let (mut device, _surface) = device_with_surface_and_handler();
    let read = EventRead::Batch(vec![Event::PageFlip(CrtcHandle(55))]);
    assert_eq!(device.process_events(&read), vec![]);
    assert_eq!(device.surface_entry(CrtcHandle(10)), Some(true));
    assert_eq!(device.surface_entry(CrtcHandle(55)), None);
}

#[test]
fn without_handler_nothing_is_called_but_stale_entries_go() {
    let mut device = open();
    let catalogue = catalogue();
    let _held = device
        .create_surface(CrtcHandle(10), mode(1920, 1080, 60), set(&[30]), &catalogue)
        .expect("the surface is made");
    let gone = device
        .create_surface(CrtcHandle(11), mode(1920, 1080, 60), set(&[31]), &catalogue)
        .expect("the surface is made");
    device.release_surface(gone);
    let read = EventRead::Batch(vec![
        Event::PageFlip(CrtcHandle(10)),
        Event::PageFlip(CrtcHandle(11)),
    ]);
    assert_eq!(device.process_events(&read), vec![]);
    assert_eq!(device.surface_entry(CrtcHandle(10)), Some(true));
    assert_eq!(device.surface_entry(CrtcHandle(11)), None);
}

#[test]
fn failed_read_goes_to_the_handler() {
    let (mut device, _surface) = device_with_surface_and_handler();
    let calls = device.process_events(&EventRead::Failed);
    assert_eq!(calls, vec![HandlerCall::Error(Error::EventProcessingFailure)]);
}

#[test]
fn failed_read_goes_to_the_handler_of_a_paused_device() {
    let (mut device, _surface) = device_with_surface_and_handler();
    device.pause(None);
    let calls = device.process_events(&EventRead::Failed);
    assert_eq!(calls, vec![HandlerCall::Error(Error::EventProcessingFailure)]);
}

#[test]
fn failed_read_without_handler_is_dropped() {
    let (mut device, _surface) = device_with_surface_and_handler();
    device.clear_handler();
    assert_eq!(device.process_events(&EventRead::Failed), vec![]);
}

#[test]
fn handler_is_set_replaced_and_cleared() {
    let mut device = open();
    assert!(device.handler_mut().is_none());
    device.set_handler(vec![HandlerCall::Completion(CrtcHandle(1))]);
    device.handler_mut().expect("a handler is set").push(HandlerCall::Completion(CrtcHandle(2)));
    assert_eq!(
        device.handler_mut().map(|h| h.clone()),
        Some(vec![HandlerCall::Completion(CrtcHandle(1)), HandlerCall::Completion(CrtcHandle(2))])
    );
    device.set_handler(Vec::new());
    assert_eq!(device.handler_mut().map(|h| h.len()), Some(0));
    device.clear_handler();
    assert!(device.handler_mut().is_none());
}

#[test]
fn teardown_with_held_surface_halts() {
    let (device, _surface) = device_with_surface_and_handler();
    assert!(matches!(device.teardown(), Teardown::PendingSurfaces));
}

#[test]
fn teardown_of_paused_device_with_held_surface_halts() {
    let (mut device, _surface) = device_with_surface_and_handler();
    device.pause(None);
    assert!(matches!(device.teardown(), Teardown::PendingSurfaces));
}

#[test]
fn teardown_restores_wiring_after_surface_was_released() {
    // connector 30 is wired to CRTC 10 when the device is opened
    let mut device = open();
    let surface = device
        .create_surface(CrtcHandle(10), mode(1280, 720, 60), set(&[30]), &catalogue())
        .expect("the surface is made");
    assert!(device.release_surface(surface));
    match device.teardown() {
        Teardown::Restore { entries, drop_master } => {
            assert!(drop_master);
            assert_eq!(entries.len(), 1);
            assert_eq!(entries[0].crtc, CrtcHandle(10));
            assert_eq!(entries[0].info, crtc_info(10, 70));
            assert_eq!(entries[0].info.fb, FramebufferHandle(70));
            assert_eq!(entries[0].info.position, (0, 0));
            assert_eq!(entries[0].info.mode, Some(mode(1920, 1080, 60)));
            assert_eq!(entries[0].connectors, vec![ConnectorHandle(30), ConnectorHandle(32)]);
        }
        Teardown::PendingSurfaces => panic!("no surface is held"),
    }
}

#[test]
fn teardown_of_untouched_device_replays_the_snapshot() {
    let mut catalogue = catalogue();
    catalogue.connectors[1].current_encoder = Some(EncoderHandle(21));
    catalogue.encoders[1].current_crtc = Some(CrtcHandle(11));
    let device = Device::new(Some(1), false, &catalogue).expect("the device opens");
    match device.teardown() {
        Teardown::Restore { entries, drop_master } => {
            assert!(!drop_master);
            assert_eq!(entries.len(), 2);
            assert_eq!(entries[0].crtc, CrtcHandle(10));
            assert_eq!(entries[0].connectors, vec![ConnectorHandle(30), ConnectorHandle(32)]);
            assert_eq!(entries[1].crtc, CrtcHandle(11));
            assert_eq!(entries[1].info, crtc_info(11, 0));
            assert_eq!(entries[1].connectors, vec![ConnectorHandle(31)]);
        }
        Teardown::PendingSurfaces => panic!("no surface is held"),
    }
}

#[test]
fn teardown_of_paused_device_restores_nothing_but_drops_mastership() {
    let mut device = open();
    device.pause(None);
    match device.teardown() {
        Teardown::Restore { entries, drop_master } => {
            assert!(entries.is_empty());
            assert!(drop_master);
        }
        Teardown::PendingSurfaces => panic!("no surface is held"),
    }
}

#[test]
fn teardown_of_paused_unprivileged_device_leaves_hardware_alone() {
    let mut device = Device::new(Some(1), false, &catalogue()).expect("the device opens");
    device.pause(None);
    match device.teardown() {
        Teardown::Restore { entries, drop_master } => {
            assert!(entries.is_empty());
            assert!(!drop_master);
        }
        Teardown::PendingSurfaces => panic!("no surface is held"),
    }
}

#[test]
fn teardown_of_resumed_device_restores_again() {
    let mut device = open();
    device.pause(None);
    device.activate(None);
    match device.teardown() {
        Teardown::Restore { entries, drop_master } => {
            assert_eq!(entries.len(), 1);
            assert!(drop_master);
        }
        Teardown::PendingSurfaces => panic!("no surface is held"),
    }
}

#[test]
fn teardown_after_pruning_goes_through() {
    let (mut device, surface) = device_with_surface_and_handler();
    device.release_surface(surface);
    device.process_events(&EventRead::Batch(vec![Event::PageFlip(CrtcHandle(10))]));
    assert!(matches!(device.teardown(), Teardown::Restore { .. }));
}
