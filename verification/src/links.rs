//! Links between peers of a device group, the commands a main device forwards to the
//! secondary devices, and the checks it makes before storing or showing an image.

use vstd::prelude::*;

use crate::errors::Error;
use crate::proto::types::{DeviceRole, PeerInfo};
use crate::proto::ResponseHeader;
use vstd::std_specs::cmp::PartialEqSpec;

verus! {

/// The configuration of a device of a group.
#[derive(Clone, Copy, PartialEq, Eq, Structural, Debug)]
pub struct AppConfig {
    /// The image shown: 0 blanks the strip, `i > 0` shows image `i - 1`.
    pub current_image_index: u16,
    /// The number of LEDs in the strip.
    pub strip_len: u16,
    /// Capacity of the receive buffer.
    pub receiver_buf_capacity: usize,
}

/// A hardware event of a device.
#[derive(Clone, Copy, PartialEq, Eq, Structural, Debug)]
pub enum HwEvent {
    /// The button that switches to the next image was pressed.
    ShowNextImage,
}

/// A connected peer: its address and what it told in the handshake.
pub struct DeviceLink<A> {
    pub address: A,
    pub data: PeerInfo,
}

/// At most one linked peer per role.
pub struct DeviceLinks<A> {
    host: Option<DeviceLink<A>>,
    master: Option<DeviceLink<A>>,
    slave: Option<DeviceLink<A>>,
}

/// Whether a link slot holds a peer with the given address.
pub open spec fn spec_link_matches<A: PartialEq>(link: Option<DeviceLink<A>>, address: A) -> bool {
    match link {
        Some(l) => l.address.eq_spec(&address),
        None => false,
    }
}

impl<A: PartialEq> DeviceLinks<A> {
    /// The peer linked under a role: the client, main and secondary roles take the host,
    /// master and slave slots.
    pub closed spec fn link(&self, role: DeviceRole) -> Option<DeviceLink<A>> {
        match role {
            DeviceRole::Client => self.host,
            DeviceRole::Main => self.master,
            DeviceRole::Secondary => self.slave,
        }
    }

    /// No links.
    pub fn new() -> (links: Self)
        ensures
            forall|role: DeviceRole| #[trigger] links.link(role) is None,
    {
        Self { host: None, master: None, slave: None }
    }

    /// Links a peer under the role it announced, replacing the previous one.
    pub fn add_link(&mut self, link: DeviceLink<A>)
        ensures
            final(self).link(link.data.role) == Some(link),
            forall|role: DeviceRole|
                role != link.data.role ==> #[trigger] final(self).link(role) == old(self).link(
                    role,
                ),
    {
        match link.data.role {
            DeviceRole::Client => {
                self.host = Some(link);
            },
            DeviceRole::Main => {
                self.master = Some(link);
            },
            DeviceRole::Secondary => {
                self.slave = Some(link);
            },
        }
    }

    /// The peer linked under a role.
    pub fn get_link(&self, role: DeviceRole) -> (r: &Option<DeviceLink<A>>)
        ensures
            *r == self.link(role),
    {
        match role {
            DeviceRole::Client => &self.host,
            DeviceRole::Main => &self.master,
            DeviceRole::Secondary => &self.slave,
        }
    }

    /// Empties the slot if it holds the address: `None` when it did, `Some(())` otherwise.
    pub fn remove_if_match(link: &mut Option<DeviceLink<A>>, address: &A) -> (r: Option<()>)
        ensures
            A::obeys_eq_spec() ==> (r is None <==> spec_link_matches(*old(link), *address)),
            r is None ==> *final(link) is None,
            r is Some ==> *final(link) == *old(link),
    {
        let matched = match link {
            Some(l) => l.address.eq(address),
            None => false,
        };
        if matched {
            *link = None;
            None
        } else {
            Some(())
        }
    }

    /// Removes the first link (client, then main, then secondary) with the address:
    /// `None` when one was removed, `Some(())` when none holds it.
    pub fn remove_address(&mut self, address: &A) -> (r: Option<()>)
        ensures
            A::obeys_eq_spec() ==> (r is None <==> (spec_link_matches(
                old(self).link(DeviceRole::Client),
                *address,
            ) || spec_link_matches(old(self).link(DeviceRole::Main), *address) || spec_link_matches(
                old(self).link(DeviceRole::Secondary),
                *address,
            ))),
            A::obeys_eq_spec() ==> final(self).link(DeviceRole::Client) == if spec_link_matches(
                old(self).link(DeviceRole::Client),
                *address,
            ) {
                None
            } else {
                old(self).link(DeviceRole::Client)
            },
            A::obeys_eq_spec() ==> final(self).link(DeviceRole::Main) == if !spec_link_matches(
                old(self).link(DeviceRole::Client),
                *address,
            ) && spec_link_matches(old(self).link(DeviceRole::Main), *address) {
                None
            } else {
                old(self).link(DeviceRole::Main)
            },
            A::obeys_eq_spec() ==> final(self).link(DeviceRole::Secondary) == if !spec_link_matches(
                old(self).link(DeviceRole::Client),
                *address,
            ) && !spec_link_matches(old(self).link(DeviceRole::Main), *address)
                && spec_link_matches(old(self).link(DeviceRole::Secondary), *address) {
                None
            } else {
                old(self).link(DeviceRole::Secondary)
            },
    {
        if Self::remove_if_match(&mut self.host, address).is_none() {
            return None;
        }
        if Self::remove_if_match(&mut self.master, address).is_none() {
            return None;
        }
        Self::remove_if_match(&mut self.slave, address)
    }

    /// Returns true if a peer is linked under the role.
    pub fn contains_link(&self, role: DeviceRole) -> (b: bool)
        ensures
            b == self.link(role) is Some,
    {
        self.get_link(role).is_some()
    }
}

/// A command that the main device forwards to its secondary devices.
#[derive(Clone, Copy, PartialEq, Eq, Structural, Debug)]
pub enum SecondaryCommand {
    ShowImage { index: usize },
    AddImage { index: usize },
    ClearImages,
}

/// The outcome of handling a message: an answer to the sender and a command for the
/// secondary devices, each optional.
pub struct MessageResponse {
    pub response: Option<ResponseHeader>,
    pub cmd: Option<SecondaryCommand>,
}

impl MessageResponse {
    /// Neither an answer nor a command.
    pub fn empty() -> (r: Self)
        ensures
            r.response is None,
            r.cmd is None,
    {
        Self { response: None, cmd: None }
    }

    /// Sets the answer.
    pub fn msg(&mut self, msg: ResponseHeader) -> (r: &mut Self)
        ensures
            *r == (MessageResponse { response: Some(msg), cmd: old(self).cmd }),
            *final(self) == *final(r),
    {
        self.response = Some(msg);
        self
    }

    /// Sets the command.
    pub fn cmd(&mut self, cmd: SecondaryCommand) -> (r: &mut Self)
        ensures
            *r == (MessageResponse { response: old(self).response, cmd: Some(cmd) }),
            *final(self) == *final(r),
    {
        self.cmd = Some(cmd);
        self
    }
}

/// The outcome of the checks on an image of `bytes_len` bytes for a strip of `strip_len`
/// pixels: the number of pixels, or why the image is refused.
pub open spec fn spec_check_add_image(
    bytes_len: usize,
    strip_len: usize,
    device_strip_len: usize,
    images_count: usize,
    max_images: usize,
) -> Result<usize, Error> {
    if bytes_len % 3 != 0 {
        Err(Error::ImageLengthMismatch)
    } else if strip_len != device_strip_len {
        Err(Error::StripLengthMismatch)
    } else if (bytes_len / 3) % device_strip_len != 0 {
        Err(Error::ImageLengthMismatch)
    } else if images_count >= max_images {
        Err(Error::ImageRepositoryIsFull)
    } else {
        Ok(bytes_len / 3)
    }
}

/// Checks an image before storing it: whole pixels, the device's strip length, whole
/// lines, and room in the repository. Returns the number of pixels.
pub fn check_add_image(
    bytes_len: usize,
    strip_len: usize,
    device_strip_len: usize,
    images_count: usize,
    max_images: usize,
) -> (r: Result<usize, Error>)
    requires
        bytes_len % 3 == 0 && strip_len == device_strip_len ==> device_strip_len > 0,
    ensures
        r == spec_check_add_image(bytes_len, strip_len, device_strip_len, images_count, max_images),
{
    if bytes_len % 3 != 0 {
        return Err(Error::ImageLengthMismatch);
    }
    let pixels_len = bytes_len / 3;
    if strip_len != device_strip_len {
        return Err(Error::StripLengthMismatch);
    }
    if pixels_len % device_strip_len != 0 {
        return Err(Error::ImageLengthMismatch);
    }
    if images_count >= max_images {
        return Err(Error::ImageRepositoryIsFull);
    }
    Ok(pixels_len)
}

/// An image is accepted exactly when it holds whole pixels that make whole strip lines of
/// the device's strip length, the strip length matches, and the repository has room; the
/// result is then its number of pixels. Each refusal names its reason: a byte count that is
/// not whole pixels, or a pixel count that is not whole lines, is a length mismatch; another
/// strip length is a strip mismatch; a full repository is reported as full.
pub proof fn lemma_check_add_image(
    bytes_len: usize,
    strip_len: usize,
    device_strip_len: usize,
    images_count: usize,
    max_images: usize,
)
    requires
        device_strip_len > 0,
    ensures
        ({
            let r = spec_check_add_image(
                bytes_len,
                strip_len,
                device_strip_len,
                images_count,
                max_images,
            );
            let pixels = bytes_len / 3;
            &&& r is Ok <==> (bytes_len % 3 == 0 && strip_len == device_strip_len && pixels
                % device_strip_len == 0 && images_count < max_images)
            &&& r is Ok ==> r->Ok_0 == pixels && r->Ok_0 * 3 == bytes_len && (r->Ok_0
                / device_strip_len) * device_strip_len == r->Ok_0
            &&& bytes_len % 3 != 0 ==> r == Err::<usize, Error>(Error::ImageLengthMismatch)
            &&& bytes_len % 3 == 0 && strip_len != device_strip_len ==> r == Err::<usize, Error>(
                Error::StripLengthMismatch,
            )
            &&& bytes_len % 3 == 0 && strip_len == device_strip_len && pixels % device_strip_len
                != 0 ==> r == Err::<usize, Error>(Error::ImageLengthMismatch)
            &&& bytes_len % 3 == 0 && strip_len == device_strip_len && pixels % device_strip_len
                == 0 && images_count >= max_images ==> r == Err::<usize, Error>(
                Error::ImageRepositoryIsFull,
            )
        }),
{
    let pixels = bytes_len / 3;
    let d = device_strip_len as int;
    vstd::arithmetic::div_mod::lemma_fundamental_div_mod(bytes_len as int, 3);
    vstd::arithmetic::div_mod::lemma_fundamental_div_mod(pixels as int, d);
    if bytes_len % 3 == 0 {
        assert(pixels * 3 == bytes_len);
    }
    if pixels % device_strip_len == 0 {
        let p = pixels as int;
        let q = p / d;
        assert(p % d == 0);
        assert(p == d * q);
        assert(q * d == p) by (nonlinear_arith)
            requires
                p == d * q,
        ;
    }
}

/// The image shown after `current` among `count` images, where index 0 blanks the strip and
/// index `i > 0` shows image `i - 1`; nothing changes without images.
pub open spec fn spec_next_image_index(current: u16, count: usize) -> Option<usize> {
    if count == 0 {
        None
    } else {
        Some(((current + 1) % (count + 1)) as usize)
    }
}

/// The index of the image to show next.
pub fn next_image_index(current: u16, count: usize) -> (r: Option<usize>)
    requires
        count < usize::MAX,
    ensures
        r == spec_next_image_index(current, count),
{
    if count == 0 {
        return None;
    }
    Some((current as usize + 1) % (count + 1))
}

/// The image to show after a hardware event, as `next_image_index` gives it.
pub fn handle_hardware_event(event: HwEvent, current: u16, count: usize) -> (r: Option<usize>)
    requires
        count < usize::MAX,
    ensures
        r == spec_next_image_index(current, count),
{
    match event {
        HwEvent::ShowNextImage => next_image_index(current, count),
    }
}

/// Checks a request to show image `index` (0 blanks the strip): the command to forward, or
/// `ImageNotFound` past the last image.
pub fn check_show_image(index: usize, images_count: usize) -> (r: Result<SecondaryCommand, Error>)
    ensures
        index > images_count ==> r == Err::<SecondaryCommand, Error>(Error::ImageNotFound),
        index <= images_count ==> r == Ok::<SecondaryCommand, Error>(
            SecondaryCommand::ShowImage { index },
        ),
{
    if index > images_count {
        Err(Error::ImageNotFound)
    } else {
        Ok(SecondaryCommand::ShowImage { index })
    }
}

/// Without images nothing changes; otherwise the next index follows the current one among
/// the blank strip (0) and the images (1 to `count`), back to the blank strip after the
/// last image.
pub proof fn lemma_next_image_index(current: u16, count: usize)
    ensures
        count == 0 <==> spec_next_image_index(current, count) is None,
        count > 0 && current < count ==> spec_next_image_index(current, count) == Some(
            (current + 1) as usize,
        ),
        count > 0 && current == count ==> spec_next_image_index(current, count) == Some(0usize),
        count > 0 ==> spec_next_image_index(current, count)->0 <= count,
{
    if count > 0 {
        let c = count as int + 1;
        vstd::arithmetic::div_mod::lemma_mod_bound(current + 1, c);
        if current < count {
            vstd::arithmetic::div_mod::lemma_fundamental_div_mod_converse(current + 1, c, 0, current + 1);
        } else if current == count {
            vstd::arithmetic::div_mod::lemma_fundamental_div_mod_converse(current + 1, c, 1, 0);
        }
    }
}

} // verus!
