use cyberpixie::{
    app::{
        holder_after, needs_storage, next_image_id, peer_info, plan_request,
        plan_service_request, read_device_info, remove_all_images, select_image, Configuration,
        DeviceConfig, RequestPlan, Storage, StorageHolder,
    },
    proto::{
        types::{DeviceInfo, DeviceRole, Hertz, ImageId, ImageInfo, PeerInfo},
        RequestHeader, ResponseHeader,
    },
    storage::Image,
    Error,
};

/// In-memory storage of images' refresh rates.
struct MemoryStorage {
    config: Configuration,
    images: Vec<Hertz>,
}

impl MemoryStorage {
    fn with_images(count: usize) -> Self {
        Self {
            config: Configuration::default(),
            images: vec![Hertz(50); count],
        }
    }
}

impl Storage for MemoryStorage {
    type ImageRead = Vec<u8>;

    fn spec_config(&self) -> Configuration {
        self.config
    }

    fn spec_images_count(&self) -> u16 {
        self.images.len() as u16
    }

    fn reliable(&self) -> bool {
        true
    }

    fn spec_image(&self, id: ImageId) -> Image<Vec<u8>> {
        Image {
            refresh_rate: self.images.get(id.0 as usize).copied().unwrap_or(Hertz(0)),
            bytes: vec![0; 3],
        }
    }

    fn config(&mut self) -> Result<Configuration, Error> {
        Ok(self.config)
    }

    fn set_config(&mut self, config: Configuration) -> Result<(), Error> {
        self.config = config;
        Ok(())
    }

    fn read_image(&mut self, id: ImageId) -> Result<Image<Vec<u8>>, Error> {
        let rate = *self.images.get(id.0 as usize).ok_or(Error::ImageNotFound)?;
        Ok(Image {
            refresh_rate: rate,
            bytes: vec![0; 3],
        })
    }

    fn images_count(&mut self) -> Result<ImageId, Error> {
        Ok(ImageId(self.images.len() as u16))
    }

    fn clear_images(&mut self) -> Result<(), Error> {
        self.images.clear();
        self.config.current_image = None;
        Ok(())
    }
}

#[test]
fn default_configuration() {
    assert_eq!(
        Configuration::default(),
        Configuration {
            strip_len: 24,
            current_image: None
        }
    );
}

#[test]
fn default_device_config() {
    assert_eq!(DeviceConfig::default(), DeviceConfig { strip_len: 0 });
}

#[test]
fn current_image_selection() {
    let mut storage = MemoryStorage::with_images(2);
    assert_eq!(storage.current_image_id(), Ok(None));
    assert_eq!(
        storage.current_image().err(),
        Some(Error::ImageRepositoryIsEmpty)
    );
    assert_eq!(storage.set_current_image_id(Some(ImageId(2))), Err(Error::ImageNotFound));
    assert_eq!(storage.set_current_image_id(Some(ImageId(1))), Ok(()));
    assert_eq!(storage.current_image_id(), Ok(Some(ImageId(1))));
    assert_eq!(storage.current_image().unwrap().refresh_rate, Hertz(50));
    assert_eq!(storage.set_current_image_id(None), Ok(()));
    assert_eq!(storage.current_image_id(), Ok(None));
}

#[test]
fn switching_images_cycles() {
    let mut storage = MemoryStorage::with_images(3);
    assert_eq!(storage.switch_to_next_image(), Ok(None));
    storage.set_current_image_id(Some(ImageId(0))).unwrap();
    assert_eq!(storage.switch_to_next_image(), Ok(Some(ImageId(1))));
    assert_eq!(storage.switch_to_next_image(), Ok(Some(ImageId(2))));
    assert_eq!(storage.switch_to_next_image(), Ok(Some(ImageId(0))));
    assert_eq!(storage.current_image_id(), Ok(Some(ImageId(0))));
    assert_eq!(next_image_id(Some(ImageId(2)), ImageId(3)), Some(ImageId(0)));
    assert_eq!(next_image_id(None, ImageId(3)), None);
}

#[test]
fn device_info_of_storage() {
    let mut storage = MemoryStorage::with_images(1);
    assert_eq!(
        read_device_info(&mut storage),
        Ok(DeviceInfo {
            strip_len: 24,
            images_count: ImageId(1),
            current_image: None,
            active: false,
        })
    );
    let info = select_image(&mut storage, ImageId(0)).unwrap();
    assert_eq!(info.current_image, Some(ImageId(0)));
    assert_eq!(select_image(&mut storage, ImageId(1)), Err(Error::ImageNotFound));
    let info = remove_all_images(&mut storage).unwrap();
    assert_eq!(info.images_count, ImageId(0));
    assert_eq!(info.current_image, None);
}

#[test]
fn handshake_reports_rendering() {
    let info = DeviceInfo::empty(24);
    let peer = peer_info(info, true);
    assert_eq!(peer.role, DeviceRole::Main);
    assert_eq!(peer.group_id, None);
    assert!(peer.device_info.unwrap().active);
    assert_eq!(
        plan_request(info, false, RequestHeader::Handshake(PeerInfo::client()), None),
        RequestPlan::Respond(ResponseHeader::Handshake(peer_info(info, false)))
    );
}

#[test]
fn add_image_requests() {
    let info = DeviceInfo::empty(24);
    let add = |strip_len| {
        RequestHeader::AddImage(ImageInfo {
            refresh_rate: Hertz(250),
            strip_len,
        })
    };
    assert_eq!(
        plan_request(info, false, add(24), Some(72)),
        RequestPlan::AddImage(Hertz(250))
    );
    assert_eq!(
        plan_request(info, false, add(23), Some(72)),
        RequestPlan::Reject(Error::StripLengthMismatch)
    );
    assert_eq!(
        plan_request(info, false, add(24), Some(7)),
        RequestPlan::Reject(Error::ImageLengthMismatch)
    );
    assert_eq!(
        plan_request(info, false, add(24), None),
        RequestPlan::Reject(Error::ImageLengthMismatch)
    );
}

#[test]
fn other_requests() {
    let info = DeviceInfo::empty(24);
    assert_eq!(
        plan_request(info, true, RequestHeader::Debug, Some(3)),
        RequestPlan::ShowDebug
    );
    assert_eq!(
        plan_request(info, true, RequestHeader::Debug, None),
        RequestPlan::Respond(ResponseHeader::Empty)
    );
    assert_eq!(
        plan_request(info, true, RequestHeader::ShowImage(ImageId(1)), None),
        RequestPlan::ShowImage(ImageId(1))
    );
    assert_eq!(
        plan_request(info, true, RequestHeader::HideImage, None),
        RequestPlan::HideImage
    );
    assert_eq!(
        plan_request(info, true, RequestHeader::ClearImages, None),
        RequestPlan::ClearImages
    );
}

#[test]
fn service_requests() {
    let cached = PeerInfo {
        role: DeviceRole::Main,
        group_id: None,
        device_info: Some(DeviceInfo::empty(36)),
    };
    assert_eq!(
        plan_service_request(36, cached, RequestHeader::Handshake(PeerInfo::client()), false),
        RequestPlan::Respond(ResponseHeader::Handshake(cached))
    );
    let add = RequestHeader::AddImage(ImageInfo {
        refresh_rate: Hertz(50),
        strip_len: 36,
    });
    assert_eq!(
        plan_service_request(36, cached, add, false),
        RequestPlan::Reject(Error::ImageLengthMismatch)
    );
    assert_eq!(
        plan_service_request(36, cached, add, true),
        RequestPlan::AddImage(Hertz(50))
    );
    assert_eq!(
        plan_service_request(24, cached, add, true),
        RequestPlan::Reject(Error::StripLengthMismatch)
    );
}

/// A device driven by the request plans, with a memory storage: the flow of the
/// asynchronous request loop without the network.
struct DeviceSim {
    storage: MemoryStorage,
    rendering: bool,
    info: DeviceInfo,
}

impl DeviceSim {
    fn new() -> Self {
        let mut storage = MemoryStorage::with_images(0);
        let info = read_device_info(&mut storage).unwrap();
        Self {
            storage,
            rendering: false,
            info,
        }
    }

    fn request(&mut self, header: RequestHeader, payload_len: Option<usize>) -> Result<ResponseHeader, Error> {
        match plan_request(self.info, self.rendering, header, payload_len) {
            RequestPlan::Respond(response) => Ok(response),
            RequestPlan::Reject(err) => Err(err),
            RequestPlan::ShowDebug => Ok(ResponseHeader::Empty),
            RequestPlan::AddImage(rate) => {
                self.rendering = false;
                self.storage.images.push(rate);
                let id = ImageId(self.storage.images.len() as u16 - 1);
                self.info = read_device_info(&mut self.storage)?;
                Ok(ResponseHeader::AddImage(id))
            }
            RequestPlan::ShowImage(id) => {
                self.rendering = false;
                self.info = select_image(&mut self.storage, id)?;
                self.rendering = true;
                Ok(ResponseHeader::Empty)
            }
            RequestPlan::HideImage => {
                self.rendering = false;
                Ok(ResponseHeader::Empty)
            }
            RequestPlan::ClearImages => {
                self.rendering = false;
                self.info = remove_all_images(&mut self.storage)?;
                Ok(ResponseHeader::Empty)
            }
        }
    }

    fn device_info(&mut self) -> DeviceInfo {
        self.request(RequestHeader::Handshake(PeerInfo::client()), None)
            .unwrap()
            .handshake()
            .unwrap()
            .device_info
            .unwrap()
    }
}

#[test]
fn images_logic_without_network() {
    let image = |strip_len, rate| {
        RequestHeader::AddImage(ImageInfo {
            refresh_rate: Hertz(rate),
            strip_len,
        })
    };
    let mut device = DeviceSim::new();

    // Add image and check the resulting device state.
    let id = device.request(image(24, 50), Some(72)).unwrap().add_image().unwrap();
    assert_eq!(id, ImageId(0));
    assert_eq!(device.device_info().images_count, ImageId(1));
    // Start a first image rendering.
    device.request(RequestHeader::ShowImage(id), None).unwrap().empty().unwrap();
    let info = device.device_info();
    assert!(info.active);
    assert_eq!(info.current_image, Some(id));

    // Another image stops the rendering.
    let id = device.request(image(24, 250), Some(72)).unwrap().add_image().unwrap();
    assert!(!device.device_info().active);
    assert_eq!(id, ImageId(1));

    // Start and stop second rendering.
    device.request(RequestHeader::ShowImage(id), None).unwrap();
    device.request(RequestHeader::HideImage, None).unwrap();
    let info = device.device_info();
    assert!(!info.active);
    assert_eq!(info.current_image, Some(ImageId(1)));

    // Clear pictures stored in the device.
    device.request(RequestHeader::ClearImages, None).unwrap();
    let info = device.device_info();
    assert_eq!(info.current_image, None);
    assert_eq!(info.images_count, ImageId(0));

    // Incorrect images.
    assert_eq!(
        device.request(image(23, 250), Some(72)),
        Err(Error::StripLengthMismatch)
    );
    assert_eq!(
        device.request(image(24, 250), Some(7)),
        Err(Error::ImageLengthMismatch)
    );
    // There is no image to show.
    assert_eq!(
        device.request(RequestHeader::ShowImage(ImageId(0)), None),
        Err(Error::ImageNotFound)
    );
}

#[test]
fn current_image_is_the_selected_one() {
    let mut storage = MemoryStorage::with_images(3);
    storage.images[1] = Hertz(60);
    storage.images[2] = Hertz(70);
    storage.set_current_image_id(Some(ImageId(2))).unwrap();
    assert_eq!(storage.current_image().unwrap().refresh_rate, Hertz(70));
    storage.set_current_image_id(Some(ImageId(1))).unwrap();
    assert_eq!(storage.current_image().unwrap().refresh_rate, Hertz(60));
}

#[test]
fn refused_image_keeps_configuration() {
    let mut storage = MemoryStorage::with_images(2);
    storage.set_current_image_id(Some(ImageId(1))).unwrap();
    assert_eq!(select_image(&mut storage, ImageId(5)), Err(Error::ImageNotFound));
    assert_eq!(storage.config, Configuration { strip_len: 24, current_image: Some(ImageId(1)) });
    assert_eq!(storage.set_current_image_id(Some(ImageId(2))), Err(Error::ImageNotFound));
    assert_eq!(storage.config.current_image, Some(ImageId(1)));
}

#[test]
fn clearing_images_empties_storage() {
    let mut storage = MemoryStorage::with_images(4);
    storage.set_current_image_id(Some(ImageId(3))).unwrap();
    let info = remove_all_images(&mut storage).unwrap();
    assert_eq!(info.images_count, ImageId(0));
    assert_eq!(storage.images.len(), 0);
    assert_eq!(storage.config, Configuration { strip_len: 24, current_image: None });
}

#[test]
fn storage_moves_between_app_and_renderer() {
    let id = ImageId(1);
    assert!(needs_storage(RequestPlan::ShowImage(id)));
    assert!(needs_storage(RequestPlan::HideImage));
    assert!(needs_storage(RequestPlan::ClearImages));
    assert!(needs_storage(RequestPlan::AddImage(Hertz(50))));
    assert!(!needs_storage(RequestPlan::ShowDebug));
    assert!(!needs_storage(RequestPlan::Reject(Error::ImageNotFound)));
    assert_eq!(
        holder_after(RequestPlan::ShowImage(id), StorageHolder::App),
        StorageHolder::Renderer
    );
    assert_eq!(
        holder_after(RequestPlan::HideImage, StorageHolder::Renderer),
        StorageHolder::App
    );
    assert_eq!(
        holder_after(RequestPlan::AddImage(Hertz(50)), StorageHolder::Renderer),
        StorageHolder::App
    );
    assert_eq!(
        holder_after(RequestPlan::Respond(ResponseHeader::Empty), StorageHolder::Renderer),
        StorageHolder::Renderer
    );
    assert_eq!(
        holder_after(RequestPlan::ShowDebug, StorageHolder::App),
        StorageHolder::App
    );
}
