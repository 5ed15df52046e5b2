//! Device application logic: the board storage contract, its derived operations, and the
//! decisions taken on each client request.

use vstd::prelude::*;

use crate::errors::Error;
use crate::proto::types::{DeviceInfo, DeviceRole, Hertz, ImageId, ImageInfo, PeerInfo};
use crate::proto::{RequestHeader, ResponseHeader};
use crate::storage::Image;

verus! {

/// Port for the client connection.
pub const DEFAULT_CLIENT_PORT: u16 = 1800;

/// A global application configuration.
#[derive(Clone, Copy, PartialEq, Eq, Structural, Debug)]
pub struct Configuration {
    /// The number of LEDs in the strip.
    pub strip_len: u16,
    /// Index of the picture which will be show by default.
    pub current_image: Option<ImageId>,
}

impl Configuration {
    /// Default strip LED length.
    pub const DEFAULT_STRIP_LED_LEN: u16 = 24;
}

impl Default for Configuration {
    fn default() -> (c: Self)
        ensures
            c == (Configuration { strip_len: 24, current_image: None }),
    {
        Self { strip_len: Self::DEFAULT_STRIP_LED_LEN, current_image: None }
    }
}

/// The configuration of a device service.
#[derive(Clone, Copy, PartialEq, Eq, Structural, Debug)]
pub struct DeviceConfig {
    /// The number of LEDs in the strip.
    pub strip_len: u16,
}

impl Default for DeviceConfig {
    fn default() -> (c: Self)
        ensures
            c == (DeviceConfig { strip_len: 0 }),
    {
        Self { strip_len: 0 }
    }
}

/// Image rendering handle.
pub trait ImageRenderHandle {
    /// Stops an image rendering routine.
    fn stop(self);
}

/// The image that follows `current` when there are `count` images: the next one, or the
/// first after the last.
pub open spec fn spec_next_image(current: u16, count: u16) -> u16 {
    if current + 1 == count {
        0
    } else {
        (current + 1) as u16
    }
}

/// Whether `id` may become the current image when there are `count` images.
pub open spec fn valid_current_image(id: Option<ImageId>, count: u16) -> bool {
    match id {
        None => true,
        Some(i) => i.0 < count,
    }
}

/// Board internal storage.
///
/// A board implements the required methods; the provided ones are built on them.
pub trait Storage {
    /// Image reader type.
    type ImageRead;

    /// The stored configuration.
    spec fn spec_config(&self) -> Configuration;

    /// The number of stored images.
    spec fn spec_images_count(&self) -> u16;

    /// Whether every operation of this storage succeeds.
    spec fn reliable(&self) -> bool;

    /// The image stored under `id`.
    spec fn spec_image(&self, id: ImageId) -> Image<Self::ImageRead>;

    /// Returns an application configuration.
    fn config(&mut self) -> (r: Result<Configuration, Error>)
        ensures
            final(self).spec_config() == old(self).spec_config(),
            final(self).spec_images_count() == old(self).spec_images_count(),
            final(self).reliable() == old(self).reliable(),
            forall|id: ImageId| #[trigger] final(self).spec_image(id) == old(self).spec_image(id),
            r is Ok ==> r->Ok_0 == old(self).spec_config(),
            old(self).reliable() ==> r is Ok,
    ;

    /// Updates an application configuration.
    ///
    /// # Notice for the board developers
    ///
    /// - You should check the current image index for the boundaries
    /// - You must invoke [`Self::clear_images`] method if the strip length changes.
    fn set_config(&mut self, config: Configuration) -> (r: Result<(), Error>)
        ensures
            final(self).reliable() == old(self).reliable(),
            r is Ok ==> final(self).spec_config() == config,
            config.strip_len == old(self).spec_config().strip_len ==> final(self).spec_images_count() == old(self).spec_images_count()
                && forall|id: ImageId| #[trigger] final(self).spec_image(id) == old(self).spec_image(id),
            r is Ok && config.strip_len != old(self).spec_config().strip_len ==> final(self).spec_images_count() == 0,
            old(self).reliable() && config.strip_len == old(self).spec_config().strip_len
                && valid_current_image(config.current_image, old(self).spec_images_count())
                ==> r is Ok,
    ;

    /// Reads an image with the given identifier.
    fn read_image(&mut self, id: ImageId) -> (r: Result<Image<Self::ImageRead>, Error>)
        ensures
            final(self).spec_config() == old(self).spec_config(),
            final(self).spec_images_count() == old(self).spec_images_count(),
            final(self).reliable() == old(self).reliable(),
            forall|id: ImageId| #[trigger] final(self).spec_image(id) == old(self).spec_image(id),
            r is Ok ==> r->Ok_0 == old(self).spec_image(id),
            old(self).reliable() && id.0 < old(self).spec_images_count() ==> r is Ok,
    ;

    /// Returns total saved images count.
    fn images_count(&mut self) -> (r: Result<ImageId, Error>)
        ensures
            final(self).spec_config() == old(self).spec_config(),
            final(self).spec_images_count() == old(self).spec_images_count(),
            final(self).reliable() == old(self).reliable(),
            forall|id: ImageId| #[trigger] final(self).spec_image(id) == old(self).spec_image(id),
            r is Ok ==> r->Ok_0 == ImageId(old(self).spec_images_count()),
            old(self).reliable() ==> r is Ok,
    ;

    /// Remove all stored images.
    ///
    /// # Notice for the board developers
    ///
    /// - You should set the current image ID to the `None` in the board configuration.
    fn clear_images(&mut self) -> (r: Result<(), Error>)
        ensures
            final(self).reliable() == old(self).reliable(),
            r is Ok ==> final(self).spec_images_count() == 0 && final(self).spec_config() == (
            Configuration { strip_len: old(self).spec_config().strip_len, current_image: None }),
            old(self).reliable() ==> r is Ok,
    ;

    /// Sets an index of image that will be shown.
    fn set_current_image_id(&mut self, id: Option<ImageId>) -> (r: Result<(), Error>)
        ensures
            final(self).spec_images_count() == old(self).spec_images_count(),
            final(self).reliable() == old(self).reliable(),
            forall|id: ImageId| #[trigger] final(self).spec_image(id) == old(self).spec_image(id),
            r is Ok ==> valid_current_image(id, old(self).spec_images_count()) && final(self).spec_config() == (Configuration { current_image: id, ..old(self).spec_config() }),
            !valid_current_image(id, old(self).spec_images_count()) ==> r is Err
                && final(self).spec_config() == old(self).spec_config(),
            old(self).reliable() && valid_current_image(id, old(self).spec_images_count()) ==> r is Ok,
            old(self).reliable() && !valid_current_image(id, old(self).spec_images_count()) ==> r
                == Err::<(), Error>(Error::ImageNotFound),
    {
        let count = match self.images_count() {
            Ok(count) => count,
            Err(e) => {
                return Err(e);
            },
        };
        // Check preconditions.
        match id {
            Some(i) => {
                if i.0 >= count.0 {
                    return Err(Error::ImageNotFound);
                }
            },
            None => {},
        }
        let mut config = match self.config() {
            Ok(config) => config,
            Err(e) => {
                return Err(e);
            },
        };
        config.current_image = id;
        self.set_config(config)
    }

    /// Returns an index of image that will be shown.
    fn current_image_id(&mut self) -> (r: Result<Option<ImageId>, Error>)
        ensures
            final(self).spec_config() == old(self).spec_config(),
            final(self).spec_images_count() == old(self).spec_images_count(),
            final(self).reliable() == old(self).reliable(),
            forall|id: ImageId| #[trigger] final(self).spec_image(id) == old(self).spec_image(id),
            r is Ok ==> r->Ok_0 == old(self).spec_config().current_image,
            old(self).reliable() ==> r is Ok,
    {
        match self.config() {
            Ok(config) => Ok(config.current_image),
            Err(e) => Err(e),
        }
    }

    /// Switches to a next image, if it reaches the last image it turns back to the first image.
    fn switch_to_next_image(&mut self) -> (r: Result<Option<ImageId>, Error>)
        requires
            old(self).spec_config().current_image matches Some(c) ==> c.0 < u16::MAX,
        ensures
            final(self).spec_images_count() == old(self).spec_images_count(),
            final(self).reliable() == old(self).reliable(),
            r is Ok ==> match old(self).spec_config().current_image {
                None => r->Ok_0 is None && final(self).spec_config() == old(self).spec_config(),
                Some(c) => {
                    let next = ImageId(spec_next_image(c.0, old(self).spec_images_count()));
                    &&& r->Ok_0 == Some(next)
                    &&& next.0 < old(self).spec_images_count()
                    &&& final(self).spec_config() == (Configuration {
                        current_image: Some(next),
                        ..old(self).spec_config()
                    })
                },
            },
            old(self).reliable() && valid_current_image(
                old(self).spec_config().current_image,
                old(self).spec_images_count(),
            ) ==> r is Ok,
    {
        let mut current_image = match self.current_image_id() {
            Ok(Some(current_image)) => current_image,
            Ok(None) => {
                return Ok(None);
            },
            Err(e) => {
                return Err(e);
            },
        };
        current_image.0 = current_image.0 + 1;
        let count = match self.images_count() {
            Ok(count) => count,
            Err(e) => {
                return Err(e);
            },
        };
        if current_image == count {
            current_image.0 = 0;
        }
        match self.set_current_image_id(Some(current_image)) {
            Ok(()) => {},
            Err(e) => {
                return Err(e);
            },
        }
        Ok(Some(current_image))
    }

    /// Reads a current image.
    fn current_image(&mut self) -> (r: Result<Image<Self::ImageRead>, Error>)
        ensures
            final(self).spec_config() == old(self).spec_config(),
            final(self).spec_images_count() == old(self).spec_images_count(),
            final(self).reliable() == old(self).reliable(),
            forall|id: ImageId| #[trigger] final(self).spec_image(id) == old(self).spec_image(id),
            r is Ok ==> (old(self).spec_config().current_image matches Some(i) && r->Ok_0
                == old(self).spec_image(i)),
            old(self).reliable() && old(self).spec_config().current_image is None ==> r matches Err(
                Error::ImageRepositoryIsEmpty,
            ),
            old(self).reliable() && (old(self).spec_config().current_image matches Some(i)
                && i.0 < old(self).spec_images_count()) ==> r is Ok,
    {
        let image_id = match self.current_image_id() {
            Ok(Some(image_id)) => image_id,
            Ok(None) => {
                return Err(Error::ImageRepositoryIsEmpty);
            },
            Err(e) => {
                return Err(e);
            },
        };
        self.read_image(image_id)
    }
}

/// Both storages hold the same image under every identifier.
pub open spec fn same_images<S: Storage + ?Sized>(a: &S, b: &S) -> bool {
    forall|id: ImageId| #[trigger] a.spec_image(id) == b.spec_image(id)
}

/// The device state that a storage describes, with no rendering task.
pub open spec fn spec_device_info(config: Configuration, count: u16) -> DeviceInfo {
    DeviceInfo {
        strip_len: config.strip_len,
        images_count: ImageId(count),
        current_image: config.current_image,
        active: false,
    }
}

/// Reads the device state from the storage.
pub fn read_device_info<S: Storage>(storage: &mut S) -> (r: Result<DeviceInfo, Error>)
    ensures
        final(storage).spec_config() == old(storage).spec_config(),
        final(storage).spec_images_count() == old(storage).spec_images_count(),
        final(storage).reliable() == old(storage).reliable(),
        same_images(final(storage), old(storage)),
        r is Ok ==> r->Ok_0 == spec_device_info(
            old(storage).spec_config(),
            old(storage).spec_images_count(),
        ),
        old(storage).reliable() ==> r is Ok,
{
    let config = match storage.config() {
        Ok(config) => config,
        Err(e) => {
            return Err(e);
        },
    };
    let images_count = match storage.images_count() {
        Ok(count) => count,
        Err(e) => {
            return Err(e);
        },
    };
    Ok(DeviceInfo {
        strip_len: config.strip_len,
        images_count,
        current_image: config.current_image,
        active: false,
    })
}

/// The peer information a running application answers a handshake with.
pub open spec fn spec_peer_info(device_info: DeviceInfo, rendering: bool) -> PeerInfo {
    PeerInfo {
        role: DeviceRole::Main,
        group_id: None,
        device_info: Some(DeviceInfo { active: rendering, ..device_info }),
    }
}

/// Returns peer information about a running application for handshake: the cached device
/// information, active while an image is being rendered.
pub fn peer_info(device_info: DeviceInfo, rendering: bool) -> (info: PeerInfo)
    ensures
        info == spec_peer_info(device_info, rendering),
{
    PeerInfo {
        role: DeviceRole::Main,
        group_id: None,
        device_info: Some(DeviceInfo { active: rendering, ..device_info }),
    }
}

/// What to do about a client request.
#[derive(Clone, Copy, PartialEq, Eq, Structural, Debug)]
pub enum RequestPlan {
    /// Answer right away.
    Respond(ResponseHeader),
    /// Answer with an error; the unread payload is skipped.
    Reject(Error),
    /// Show the payload as a debug message, then answer `Empty`.
    ShowDebug,
    /// Stop rendering, store the payload as an image with this refresh rate, refresh the
    /// device information and answer with the new image ID.
    AddImage(Hertz),
    /// Stop rendering, make this image the current one, refresh the device information,
    /// start rendering it and answer `Empty`.
    ShowImage(ImageId),
    /// Stop rendering and answer `Empty`.
    HideImage,
    /// Stop rendering, remove all images, refresh the device information and answer `Empty`.
    ClearImages,
}

/// The plan for a request, given the cached device information, whether an image is being
/// rendered and the length of the request payload, if any.
pub open spec fn spec_plan_request(
    device_info: DeviceInfo,
    rendering: bool,
    header: RequestHeader,
    payload_len: Option<usize>,
) -> RequestPlan {
    match header {
        RequestHeader::Handshake(_) => RequestPlan::Respond(
            ResponseHeader::Handshake(spec_peer_info(device_info, rendering)),
        ),
        RequestHeader::Debug => if payload_len is Some {
            RequestPlan::ShowDebug
        } else {
            RequestPlan::Respond(ResponseHeader::Empty)
        },
        RequestHeader::AddImage(info) => if device_info.strip_len != info.strip_len {
            RequestPlan::Reject(Error::StripLengthMismatch)
        } else if payload_len is None {
            RequestPlan::Reject(Error::ImageLengthMismatch)
        } else if (payload_len->0 as int) % (info.strip_len * 3) as int != 0 {
            RequestPlan::Reject(Error::ImageLengthMismatch)
        } else {
            RequestPlan::AddImage(info.refresh_rate)
        },
        RequestHeader::ShowImage(id) => RequestPlan::ShowImage(id),
        RequestHeader::HideImage => RequestPlan::HideImage,
        RequestHeader::ClearImages => RequestPlan::ClearImages,
    }
}

/// Decides how to handle a client request.
///
/// An image is accepted only for the device's strip length and with a payload whose
/// length is a multiple of "strip length" * "bytes per pixel".
pub fn plan_request(
    device_info: DeviceInfo,
    rendering: bool,
    header: RequestHeader,
    payload_len: Option<usize>,
) -> (plan: RequestPlan)
    requires
        header matches RequestHeader::AddImage(info) ==> (info.strip_len == device_info.strip_len
            && payload_len is Some ==> info.strip_len > 0),
    ensures
        plan == spec_plan_request(device_info, rendering, header, payload_len),
{
    match header {
        RequestHeader::Handshake(_) => RequestPlan::Respond(
            ResponseHeader::Handshake(peer_info(device_info, rendering)),
        ),
        RequestHeader::Debug => {
            if payload_len.is_some() {
                RequestPlan::ShowDebug
            } else {
                RequestPlan::Respond(ResponseHeader::Empty)
            }
        },
        RequestHeader::AddImage(ImageInfo { refresh_rate, strip_len }) => {
            if device_info.strip_len != strip_len {
                return RequestPlan::Reject(Error::StripLengthMismatch);
            }
            // Request should has payload.
            let image_len = match payload_len {
                Some(len) => len,
                None => {
                    return RequestPlan::Reject(Error::ImageLengthMismatch);
                },
            };
            // The length of the picture in bytes should be a multiple of "strip length" * "bytes per pixel".
            if image_len % (strip_len as usize * crate::BYTES_PER_PIXEL) != 0 {
                return RequestPlan::Reject(Error::ImageLengthMismatch);
            }
            RequestPlan::AddImage(refresh_rate)
        },
        RequestHeader::ShowImage(image_id) => RequestPlan::ShowImage(image_id),
        RequestHeader::HideImage => RequestPlan::HideImage,
        RequestHeader::ClearImages => RequestPlan::ClearImages,
    }
}

/// Who holds the board storage: the application, while no image is rendered, or the task
/// that renders an image.
#[derive(Clone, Copy, PartialEq, Eq, Structural, Debug)]
pub enum StorageHolder {
    /// The application holds the storage; nothing is rendered.
    App,
    /// The rendering task holds the storage.
    Renderer,
}

/// Whether carrying out a plan needs the storage, so that a rendering must be stopped first.
pub open spec fn spec_needs_storage(plan: RequestPlan) -> bool {
    match plan {
        RequestPlan::AddImage(_) | RequestPlan::ShowImage(_) | RequestPlan::HideImage
        | RequestPlan::ClearImages => true,
        _ => false,
    }
}

/// Who holds the storage once a plan was carried out: a shown image is left rendering, a
/// plan that needed the storage leaves it with the application, and the others change
/// nothing.
pub open spec fn spec_holder_after(plan: RequestPlan, holder: StorageHolder) -> StorageHolder {
    match plan {
        RequestPlan::ShowImage(_) => StorageHolder::Renderer,
        RequestPlan::AddImage(_) | RequestPlan::HideImage | RequestPlan::ClearImages => {
            StorageHolder::App
        },
        _ => holder,
    }
}

/// Whether carrying out a plan needs the storage, so that a rendering must be stopped first.
pub fn needs_storage(plan: RequestPlan) -> (b: bool)
    ensures
        b == spec_needs_storage(plan),
{
    match plan {
        RequestPlan::AddImage(_) | RequestPlan::ShowImage(_) | RequestPlan::HideImage
        | RequestPlan::ClearImages => true,
        _ => false,
    }
}

/// Who holds the storage once a plan was carried out, given who held it before.
pub fn holder_after(plan: RequestPlan, holder: StorageHolder) -> (h: StorageHolder)
    ensures
        h == spec_holder_after(plan, holder),
{
    match plan {
        RequestPlan::ShowImage(_) => StorageHolder::Renderer,
        RequestPlan::AddImage(_) | RequestPlan::HideImage | RequestPlan::ClearImages => {
            StorageHolder::App
        },
        _ => holder,
    }
}

/// Requests move the storage between the application and the rendering task: a plan that
/// leaves the renderer holding it is a `ShowImage`, which needs the storage back first; a
/// plan that does not need the storage leaves the holder as it was; and the handshake
/// answered next reports the device active exactly when the renderer holds the storage.
pub proof fn lemma_storage_holder(
    device_info: DeviceInfo,
    holder: StorageHolder,
    header: RequestHeader,
    payload_len: Option<usize>,
    peer: PeerInfo,
)
    ensures
        ({
            let plan = spec_plan_request(
                device_info,
                holder == StorageHolder::Renderer,
                header,
                payload_len,
            );
            let after = spec_holder_after(plan, holder);
            &&& after == StorageHolder::Renderer && holder == StorageHolder::App ==> plan is ShowImage
                && spec_needs_storage(plan)
            &&& !spec_needs_storage(plan) ==> after == holder
            &&& spec_plan_request(
                device_info,
                after == StorageHolder::Renderer,
                RequestHeader::Handshake(peer),
                None,
            ) == RequestPlan::Respond(
                ResponseHeader::Handshake(
                    spec_peer_info(device_info, after == StorageHolder::Renderer),
                ),
            )
            &&& spec_peer_info(device_info, after == StorageHolder::Renderer).device_info->0.active
                == (after == StorageHolder::Renderer)
        }),
{
}

/// The plan for a request to a device service that answers handshakes with its cached
/// peer information and checks uploads only against the configured strip length.
pub open spec fn spec_plan_service_request(
    strip_len: u16,
    cached_peer_info: PeerInfo,
    header: RequestHeader,
    has_payload: bool,
) -> RequestPlan {
    match header {
        RequestHeader::Handshake(_) => RequestPlan::Respond(
            ResponseHeader::Handshake(cached_peer_info),
        ),
        RequestHeader::AddImage(info) => if strip_len != info.strip_len {
            RequestPlan::Reject(Error::StripLengthMismatch)
        } else if !has_payload {
            RequestPlan::Reject(Error::ImageLengthMismatch)
        } else {
            RequestPlan::AddImage(info.refresh_rate)
        },
        RequestHeader::ShowImage(id) => RequestPlan::ShowImage(id),
        RequestHeader::HideImage => RequestPlan::HideImage,
        RequestHeader::ClearImages => RequestPlan::ClearImages,
        RequestHeader::Debug => RequestPlan::ShowDebug,
    }
}

/// Decides how a device service handles a request, given the configured strip length and
/// the cached peer information.
pub fn plan_service_request(
    strip_len: u16,
    cached_peer_info: PeerInfo,
    header: RequestHeader,
    has_payload: bool,
) -> (plan: RequestPlan)
    ensures
        plan == spec_plan_service_request(strip_len, cached_peer_info, header, has_payload),
{
    match header {
        RequestHeader::Handshake(_) => RequestPlan::Respond(
            ResponseHeader::Handshake(cached_peer_info),
        ),
        RequestHeader::AddImage(ImageInfo { refresh_rate, strip_len: image_strip_len }) => {
            if strip_len != image_strip_len {
                return RequestPlan::Reject(Error::StripLengthMismatch);
            }
            if !has_payload {
                return RequestPlan::Reject(Error::ImageLengthMismatch);
            }
            RequestPlan::AddImage(refresh_rate)
        },
        RequestHeader::ShowImage(image_id) => RequestPlan::ShowImage(image_id),
        RequestHeader::HideImage => RequestPlan::HideImage,
        RequestHeader::ClearImages => RequestPlan::ClearImages,
        RequestHeader::Debug => RequestPlan::ShowDebug,
    }
}

/// Makes `image_id` the current image and reads back the device information, as a
/// `ShowImage` request does once rendering has been stopped.
pub fn select_image<S: Storage>(storage: &mut S, image_id: ImageId) -> (r: Result<
    DeviceInfo,
    Error,
>)
    ensures
        final(storage).spec_images_count() == old(storage).spec_images_count(),
        final(storage).reliable() == old(storage).reliable(),
        same_images(final(storage), old(storage)),
        image_id.0 >= old(storage).spec_images_count() ==> r is Err && final(storage).spec_config()
            == old(storage).spec_config(),
        r is Ok ==> image_id.0 < old(storage).spec_images_count() && final(storage).spec_config()
            == (Configuration { current_image: Some(image_id), ..old(storage).spec_config() })
            && r->Ok_0 == spec_device_info(
            final(storage).spec_config(),
            old(storage).spec_images_count(),
        ),
        old(storage).reliable() ==> r == if image_id.0 < old(storage).spec_images_count() {
            Ok::<DeviceInfo, Error>(
                spec_device_info(
                    Configuration { current_image: Some(image_id), ..old(storage).spec_config() },
                    old(storage).spec_images_count(),
                ),
            )
        } else {
            Err::<DeviceInfo, Error>(Error::ImageNotFound)
        },
{
    match storage.set_current_image_id(Some(image_id)) {
        Ok(()) => {},
        Err(e) => {
            return Err(e);
        },
    }
    // Since we change the current image ID we have to refresh device information.
    read_device_info(storage)
}

/// Removes all images and reads back the device information, as a `ClearImages` request
/// does once rendering has been stopped.
pub fn remove_all_images<S: Storage>(storage: &mut S) -> (r: Result<DeviceInfo, Error>)
    ensures
        final(storage).reliable() == old(storage).reliable(),
        r is Ok ==> final(storage).spec_images_count() == 0 && final(storage).spec_config() == (
        Configuration { current_image: None, ..old(storage).spec_config() }) && r->Ok_0 == (
        DeviceInfo {
            strip_len: old(storage).spec_config().strip_len,
            images_count: ImageId(0),
            current_image: None,
            active: false,
        }),
        old(storage).reliable() ==> r is Ok,
{
    match storage.clear_images() {
        Ok(()) => {},
        Err(e) => {
            return Err(e);
        },
    }
    // Since we change the number of images we have to refresh device information.
    read_device_info(storage)
}

/// The image that follows the current one among `count` images, if an image is current;
/// the current image itself is not changed.
pub fn next_image_id(current: Option<ImageId>, count: ImageId) -> (r: Option<ImageId>)
    requires
        current matches Some(c) ==> c.0 < u16::MAX,
    ensures
        r == match current {
            None => None::<ImageId>,
            Some(c) => Some(ImageId(spec_next_image(c.0, count.0))),
        },
{
    let mut current_image = match current {
        Some(current_image) => current_image,
        None => {
            return None;
        },
    };
    current_image.0 = current_image.0 + 1;
    if current_image == count {
        current_image.0 = 0;
    }
    Some(current_image)
}

/// The current image after `k` switches to the next image, starting from `start`.
pub open spec fn spec_image_after_switches(start: u16, count: u16, k: nat) -> u16
    decreases k,
{
    if k == 0 {
        start
    } else {
        spec_next_image(spec_image_after_switches(start, count, (k - 1) as nat), count)
    }
}

/// After `k` switches from image `start` the current image is `(start + k) mod count`.
proof fn lemma_switch_steps(start: u16, count: u16, k: nat)
    requires
        start < count,
    ensures
        spec_image_after_switches(start, count, k) == (start + k) % (count as int),
    decreases k,
{
    let c = count as int;
    if k == 0 {
        vstd::arithmetic::div_mod::lemma_fundamental_div_mod_converse(start as int, c, 0, start as int);
    } else {
        lemma_switch_steps(start, count, (k - 1) as nat);
        let prev = (start + k - 1) as int;
        vstd::arithmetic::div_mod::lemma_fundamental_div_mod(prev, c);
        vstd::arithmetic::div_mod::lemma_mod_bound(prev, c);
        let q = prev / c;
        let r = prev % c;
        assert(spec_image_after_switches(start, count, (k - 1) as nat) == r);
        if r + 1 == c {
            assert(prev + 1 == (q + 1) * c + 0) by (nonlinear_arith)
                requires
                    prev == c * q + r,
                    r + 1 == c,
            ;
            vstd::arithmetic::div_mod::lemma_fundamental_div_mod_converse(prev + 1, c, q + 1, 0);
            assert(spec_image_after_switches(start, count, k) == 0);
        } else {
            assert(prev + 1 == q * c + (r + 1)) by (nonlinear_arith)
                requires
                    prev == c * q + r,
            ;
            vstd::arithmetic::div_mod::lemma_fundamental_div_mod_converse(prev + 1, c, q, r + 1);
            assert(spec_image_after_switches(start, count, k) == r + 1);
        }
    }
}

/// Switching to the next image walks the images in a cycle: after `k` switches from image
/// `start` the current image is `(start + k) mod count`; after `count` switches it is
/// `start` again.
pub proof fn lemma_switch_cycles(start: u16, count: u16, k: nat)
    requires
        start < count,
    ensures
        spec_image_after_switches(start, count, k) == (start + k) % (count as int),
        spec_image_after_switches(start, count, count as nat) == start,
{
    lemma_switch_steps(start, count, k);
    lemma_switch_steps(start, count, count as nat);
    vstd::arithmetic::div_mod::lemma_fundamental_div_mod_converse(
        start + count as int,
        count as int,
        1,
        start as int,
    );
}

/// An image upload is accepted exactly when it is made for the device's strip length and
/// carries a payload of whole strip lines.
pub proof fn lemma_add_image_accepted(
    device_info: DeviceInfo,
    rendering: bool,
    info: ImageInfo,
    payload_len: Option<usize>,
)
    ensures
        spec_plan_request(device_info, rendering, RequestHeader::AddImage(info), payload_len)
            is AddImage <==> (info.strip_len == device_info.strip_len && payload_len is Some && (
        payload_len->0 as int) % (info.strip_len * 3) as int == 0),
{
}

/// The handshake answer of a running application is the main device with no group, and
/// reports the cached device information field by field, with the activity flag telling
/// whether an image is being rendered.
pub proof fn lemma_peer_info_reports_device(device_info: DeviceInfo, rendering: bool)
    ensures
        ({
            let info = spec_peer_info(device_info, rendering);
            &&& info.role == DeviceRole::Main
            &&& info.group_id is None
            &&& info.device_info is Some
            &&& info.device_info->0.strip_len == device_info.strip_len
            &&& info.device_info->0.images_count == device_info.images_count
            &&& info.device_info->0.current_image == device_info.current_image
            &&& info.device_info->0.active == rendering
        }),
{
}

/// The device information read from a storage reports its strip length and current image
/// from the configuration and its number of images, with no rendering.
pub proof fn lemma_device_info_reports_storage(config: Configuration, count: u16)
    ensures
        spec_device_info(config, count).strip_len == config.strip_len,
        spec_device_info(config, count).images_count == ImageId(count),
        spec_device_info(config, count).current_image == config.current_image,
        !spec_device_info(config, count).active,
{
}

/// A client request is planned after its header: a handshake is answered at once with the
/// peer information, a debug message is shown when it has a payload, and each image
/// request is planned as itself and as nothing else. An upload is accepted exactly when it
/// is for the device's strip length and carries whole strip lines, with the requested rate;
/// a refusal is a strip mismatch for another strip length, and a length mismatch otherwise.
pub proof fn lemma_plan_follows_header(
    device_info: DeviceInfo,
    rendering: bool,
    header: RequestHeader,
    payload_len: Option<usize>,
)
    ensures
        ({
            let plan = spec_plan_request(device_info, rendering, header, payload_len);
            &&& header is HideImage <==> plan is HideImage
            &&& header is ClearImages <==> plan is ClearImages
            &&& header is ShowImage <==> plan is ShowImage
            &&& header matches RequestHeader::ShowImage(id) ==> plan == RequestPlan::ShowImage(id)
            &&& plan is ShowDebug <==> (header is Debug && payload_len is Some)
            &&& header is Debug && payload_len is None ==> plan == RequestPlan::Respond(
                ResponseHeader::Empty,
            )
            &&& header is Handshake ==> plan == RequestPlan::Respond(
                ResponseHeader::Handshake(spec_peer_info(device_info, rendering)),
            )
            &&& plan is Respond ==> header is Handshake || header is Debug
            &&& plan is AddImage || plan is Reject ==> header is AddImage
            &&& header matches RequestHeader::AddImage(info) ==> {
                &&& plan is AddImage <==> (info.strip_len == device_info.strip_len && payload_len is Some
                    && (payload_len->0 as int) % (info.strip_len * 3) as int == 0)
                &&& plan is AddImage ==> plan == RequestPlan::AddImage(info.refresh_rate)
                &&& info.strip_len != device_info.strip_len ==> plan == RequestPlan::Reject(
                    Error::StripLengthMismatch,
                )
                &&& info.strip_len == device_info.strip_len && !(plan is AddImage) ==> plan
                    == RequestPlan::Reject(Error::ImageLengthMismatch)
            }
        }),
{
}

/// A device service plans a request after its header: a handshake is answered at once with
/// the cached peer information, a debug message is shown, and each image request is
/// planned as itself and as nothing else; hiding an image never clears the images. An
/// upload is accepted exactly when it is for the configured strip length and carries a
/// payload, with the requested rate.
pub proof fn lemma_service_plan_follows_header(
    strip_len: u16,
    cached_peer_info: PeerInfo,
    header: RequestHeader,
    has_payload: bool,
)
    ensures
        ({
            let plan = spec_plan_service_request(strip_len, cached_peer_info, header, has_payload);
            &&& header is HideImage <==> plan is HideImage
            &&& header is ClearImages <==> plan is ClearImages
            &&& header is ShowImage <==> plan is ShowImage
            &&& header matches RequestHeader::ShowImage(id) ==> plan == RequestPlan::ShowImage(id)
            &&& header is Debug <==> plan is ShowDebug
            &&& header is Handshake <==> plan is Respond
            &&& header is Handshake ==> plan == RequestPlan::Respond(
                ResponseHeader::Handshake(cached_peer_info),
            )
            &&& plan is AddImage || plan is Reject ==> header is AddImage
            &&& header matches RequestHeader::AddImage(info) ==> {
                &&& plan is AddImage <==> (info.strip_len == strip_len && has_payload)
                &&& plan is AddImage ==> plan == RequestPlan::AddImage(info.refresh_rate)
                &&& info.strip_len != strip_len ==> plan == RequestPlan::Reject(
                    Error::StripLengthMismatch,
                )
                &&& info.strip_len == strip_len && !has_payload ==> plan == RequestPlan::Reject(
                    Error::ImageLengthMismatch,
                )
            }
        }),
{
}

/// Only the plans that change the stored images or the rendering need the storage: an
/// upload, showing or hiding an image, and clearing the images. A plan answered at once,
/// a refusal or a debug message leaves the rendering alone, and so keeps the holder of
/// the storage; a shown image leaves the renderer holding it, and the other plans that
/// need it leave it with the application.
pub proof fn lemma_storage_needed_by_plan(plan: RequestPlan, holder: StorageHolder)
    ensures
        spec_needs_storage(plan) <==> (plan is AddImage || plan is ShowImage || plan is HideImage
            || plan is ClearImages),
        plan is Respond || plan is Reject || plan is ShowDebug ==> !spec_needs_storage(plan)
            && spec_holder_after(plan, holder) == holder,
        plan is ShowImage ==> spec_holder_after(plan, holder) == StorageHolder::Renderer,
        plan is AddImage || plan is HideImage || plan is ClearImages ==> spec_holder_after(
            plan,
            holder,
        ) == StorageHolder::App,
{
}

} // verus!
