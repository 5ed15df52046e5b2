use cyberpixie::{
    links::{
        check_add_image, check_show_image, handle_hardware_event, next_image_index, DeviceLink,
        DeviceLinks, HwEvent, MessageResponse, SecondaryCommand,
    },
    proto::{
        types::{DeviceRole, PeerInfo},
        ResponseHeader,
    },
    Error,
};

fn peer(role: DeviceRole) -> PeerInfo {
    PeerInfo {
        role,
        group_id: None,
        device_info: None,
    }
}

#[test]
fn links_add_and_remove() {
    let mut links = DeviceLinks::<u32>::new();
    assert!(!links.contains_link(DeviceRole::Main));
    links.add_link(DeviceLink {
        address: 10,
        data: peer(DeviceRole::Main),
    });
    links.add_link(DeviceLink {
        address: 20,
        data: peer(DeviceRole::Secondary),
    });
    assert!(links.contains_link(DeviceRole::Main));
    assert!(links.contains_link(DeviceRole::Secondary));
    assert!(!links.contains_link(DeviceRole::Client));
    assert_eq!(links.get_link(DeviceRole::Secondary).as_ref().unwrap().address, 20);

    assert_eq!(links.remove_address(&30), Some(()));
    assert_eq!(links.remove_address(&20), None);
    assert!(!links.contains_link(DeviceRole::Secondary));
    assert!(links.contains_link(DeviceRole::Main));
}

#[test]
fn remove_stops_at_first_match() {
    let mut links = DeviceLinks::<u32>::new();
    links.add_link(DeviceLink {
        address: 5,
        data: peer(DeviceRole::Client),
    });
    links.add_link(DeviceLink {
        address: 5,
        data: peer(DeviceRole::Main),
    });
    assert_eq!(links.remove_address(&5), None);
    assert!(!links.contains_link(DeviceRole::Client));
    // Only the first match is removed.
    assert!(links.contains_link(DeviceRole::Main));
}

#[test]
fn message_response_builder() {
    let mut response = MessageResponse::empty();
    assert!(response.response.is_none() && response.cmd.is_none());
    response
        .cmd(SecondaryCommand::ClearImages)
        .msg(ResponseHeader::Empty);
    assert_eq!(response.response, Some(ResponseHeader::Empty));
    assert_eq!(response.cmd, Some(SecondaryCommand::ClearImages));
}

#[test]
fn add_image_checks() {
    assert_eq!(check_add_image(72, 24, 24, 0, 10), Ok(24));
    assert_eq!(check_add_image(71, 24, 24, 0, 10), Err(Error::ImageLengthMismatch));
    assert_eq!(check_add_image(72, 23, 24, 0, 10), Err(Error::StripLengthMismatch));
    assert_eq!(check_add_image(75, 24, 24, 0, 10), Err(Error::ImageLengthMismatch));
    assert_eq!(check_add_image(72, 24, 24, 10, 10), Err(Error::ImageRepositoryIsFull));
}

#[test]
fn next_image_indices() {
    assert_eq!(next_image_index(0, 0), None);
    assert_eq!(next_image_index(0, 2), Some(1));
    assert_eq!(next_image_index(1, 2), Some(2));
    assert_eq!(next_image_index(2, 2), Some(0));
    assert_eq!(check_show_image(3, 2), Err(Error::ImageNotFound));
    assert_eq!(
        check_show_image(2, 2),
        Ok(SecondaryCommand::ShowImage { index: 2 })
    );
}

#[test]
fn hardware_event_switches_image() {
    assert_eq!(handle_hardware_event(HwEvent::ShowNextImage, 1, 3), Some(2));
    assert_eq!(handle_hardware_event(HwEvent::ShowNextImage, 3, 3), Some(0));
    assert_eq!(handle_hardware_event(HwEvent::ShowNextImage, 0, 0), None);
}
