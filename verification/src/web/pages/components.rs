//! Parts of pages: pictures of users and applications, and cards about devices.

use crate::matrix::{localpart, localpart_of};
use crate::oauth::client_metadata::ClientMetadata;
use crate::oauth::{base64_standard, encode_standard};
use crate::text::glue;
use crate::users::{maybe, Device};
use vstd::prelude::*;

verus! {

/// A picture, or a character in place of one.
#[derive(Debug)]
pub enum AvatarType {
    Initial(char),
    Image(String),
}

pub enum AvatarView {
    Initial(char),
    Image(Seq<char>),
}

#[derive(Debug)]
pub struct Avatar {
    pub avatar_type: AvatarType,
}

impl View for Avatar {
    type V = AvatarView;

    open spec fn view(&self) -> AvatarView {
        match self.avatar_type {
            AvatarType::Initial(c) => AvatarView::Initial(c),
            AvatarType::Image(src) => AvatarView::Image(src@),
        }
    }
}

/// A picture that a user has set.
#[derive(Debug)]
pub struct MediaFile {
    pub content_type: Option<String>,
    pub content: Option<Vec<u8>>,
}

/// The picture as a text that a page can hold.
pub open spec fn data_url(file: MediaFile) -> Seq<char> {
    "data:"@ + (match file.content_type {
        Some(content_type) => content_type@,
        None => "application/octet-stream"@,
    }) + ";base64,"@ + (match file.content {
        Some(content) => base64_standard(content@),
        None => Seq::empty(),
    })
}

fn to_data_url(file: &MediaFile) -> (r: String)
    ensures
        r@ == data_url(*file),
{
    let kind = match &file.content_type {
        Some(content_type) => content_type.as_str(),
        None => "application/octet-stream",
    };
    let start = glue("data:", kind);
    let encoding = glue(start.as_str(), ";base64,");
    match &file.content {
        Some(content) => glue(encoding.as_str(), encode_standard(content).as_str()),
        None => {
            assert(encoding@ + Seq::<char>::empty() =~= encoding@);
            encoding
        },
    }
}

/// The first character of a text.
pub open spec fn initial(text: Seq<char>) -> Option<char> {
    if text.len() > 0 {
        Some(text[0])
    } else {
        None
    }
}

fn first_char(text: &str) -> (r: Option<char>)
    ensures
        r == initial(text@),
{
    if text.unicode_len() > 0 {
        Some(text.get_char(0))
    } else {
        None
    }
}

/// The picture of a user: the one that they have set, or the first character of their display
/// name or of their localpart.
pub open spec fn user_avatar(
    user_id: Seq<char>,
    display_name: Option<Seq<char>>,
    file: Option<MediaFile>,
) -> AvatarView {
    match (file, display_name) {
        (Some(file), _) => AvatarView::Image(data_url(file)),
        (None, Some(name)) => AvatarView::Initial(
            if name.len() > 0 {
                name[0]
            } else {
                localpart(user_id)[0]
            },
        ),
        (None, None) => AvatarView::Initial(localpart(user_id)[0]),
    }
}

impl Avatar {
    /// The picture of a user: the one that they have set, or the first character of their
    /// display name or of their localpart.
    pub fn for_local_user(user_id: &str, display_name: Option<&str>, file: &Option<MediaFile>) -> (r:
        Avatar)
        requires
            user_id@.len() > 0,
            user_id@[0] == '@',
            *file is None && !(display_name matches Some(name) && name@.len() > 0) ==> localpart(
                user_id@,
            ).len() > 0,
        ensures
            r@ == user_avatar(
                user_id@,
                match display_name {
                    Some(name) => Some(name@),
                    None => None,
                },
                *file,
            ),
    {
        if let Some(file) = file {
            return Avatar { avatar_type: AvatarType::Image(to_data_url(file)) };
        }
        if let Some(name) = display_name {
            if let Some(c) = first_char(name) {
                return Avatar { avatar_type: AvatarType::Initial(c) };
            }
        }
        let own = localpart_of(user_id);
        Avatar { avatar_type: AvatarType::Initial(own.as_str().get_char(0)) }
    }

    /// The picture of an application: its logo, or the first character of its name.
    pub fn for_client(client: &ClientMetadata) -> (r: Avatar)
        ensures
            r@ == client_avatar(*client),
    {
        if let Some(logo) = &client.logo_uri {
            return Avatar { avatar_type: AvatarType::Image(logo.as_str().to_owned()) };
        }
        if let Some(name) = &client.client_name {
            if let Some(c) = first_char(name.as_str()) {
                return Avatar { avatar_type: AvatarType::Initial(c) };
            }
        }
        Avatar { avatar_type: AvatarType::Initial('?') }
    }
}

/// The picture of an application.
pub open spec fn client_avatar(client: ClientMetadata) -> AvatarView {
    match client.logo_uri {
        Some(logo) => AvatarView::Image(logo@.text),
        None => match client.client_name {
            Some(name) => AvatarView::Initial(
                if name@.len() > 0 {
                    name@[0]
                } else {
                    '?'
                },
            ),
            None => AvatarView::Initial('?'),
        },
    }
}

/// What a page says about a user.
#[derive(Debug)]
pub struct UserCard {
    pub user_id: String,
    pub display_name: Option<String>,
    pub avatar: Avatar,
}

impl UserCard {
    /// The card of a user. `file` is the picture that they have set.
    pub fn for_local_user(
        user_id: String,
        display_name: Option<String>,
        file: &Option<MediaFile>,
    ) -> (r: UserCard)
        requires
            user_id@.len() > 0,
            user_id@[0] == '@',
            *file is None && !(display_name matches Some(name) && name@.len() > 0) ==> localpart(
                user_id@,
            ).len() > 0,
        ensures
            r.user_id == user_id,
            r.display_name == display_name,
            r.avatar@ == user_avatar(user_id@, maybe(display_name), *file),
    {
        let avatar = match &display_name {
            Some(name) => Avatar::for_local_user(user_id.as_str(), Some(name.as_str()), file),
            None => Avatar::for_local_user(user_id.as_str(), None, file),
        };
        UserCard { user_id, display_name, avatar }
    }
}

/// What a page says about a device.
#[derive(Debug)]
pub struct DeviceCard<'a> {
    pub device_id: String,
    pub display_name: Option<String>,
    pub avatar: Avatar,
    pub last_active: String,
    /// In seconds since the Unix epoch.
    pub last_seen_ts: Option<u64>,
    /// The application that uses the device.
    pub oauth_metadata: Option<&'a ClientMetadata>,
}

/// The name of a device: that of the application that uses it, or its own.
pub open spec fn device_name(device: Option<Device>, client: Option<ClientMetadata>) -> Option<
    Seq<char>,
> {
    match client {
        Some(ClientMetadata { client_name: Some(name), .. }) => Some(name@),
        _ => match device {
            Some(device) => maybe(device.display_name),
            None => None,
        },
    }
}

/// The picture of a device: the logo of the application that uses it, the first character
/// of the application's or the device's name, or a sign.
pub open spec fn device_avatar(device: Option<Device>, client: Option<ClientMetadata>) -> AvatarView {
    match client {
        Some(ClientMetadata { logo_uri: Some(logo), .. }) => AvatarView::Image(logo@.text),
        _ => match device_name(device, client) {
            Some(name) => if name.len() == 0 {
                AvatarView::Initial('?')
            } else if client is Some {
                AvatarView::Initial(name[0])
            } else {
                AvatarView::Initial('\u{2756}')
            },
            None => AvatarView::Initial('?'),
        },
    }
}

/// When a device was last seen, in milliseconds.
pub open spec fn seen(device: Option<Device>) -> Option<u64> {
    match device {
        Some(device) => device.last_seen_ts,
        None => None,
    }
}

/// How long ago a device was last seen, in words: `now` if it is said to be seen later.
pub open spec fn activity(seen_ms: Option<u64>, now_ms: u64, ago: Seq<char>) -> Seq<char> {
    match seen_ms {
        None => "unknown"@,
        Some(seen_ms) => if seen_ms <= now_ms {
            ago + " ago"@
        } else {
            "now"@
        },
    }
}

impl<'a> DeviceCard<'a> {
    /// The card of a device. `client` is the application that uses it, if one does, and
    /// `ago` how long it is since it was last seen.
    pub fn for_device(
        device_id: String,
        device: Option<&Device>,
        client: Option<&'a ClientMetadata>,
        now_ms: u64,
        ago: &str,
    ) -> (r: DeviceCard<'a>)
        ensures
            r.oauth_metadata == client,
            ({
                let device = match device {
                    Some(device) => Some(*device),
                    None => None,
                };
                let client = match client {
                    Some(client) => Some(*client),
                    None => None,
                };
                &&& r.device_id == device_id
                &&& maybe(r.display_name) == device_name(device, client)
                &&& r.avatar@ == device_avatar(device, client)
                &&& r.last_active@ == activity(seen(device), now_ms, ago@)
                &&& r.last_seen_ts == match seen(device) {
                    Some(ms) => Some((ms / 1000) as u64),
                    None => None,
                }
            }),
    {
        let own_name: Option<String> = match device {
            Some(device) => match &device.display_name {
                Some(name) => Some(name.clone()),
                None => None,
            },
            None => None,
        };
        let display_name: Option<String> = match client {
            Some(client) => match &client.client_name {
                Some(name) => Some(name.clone()),
                None => own_name,
            },
            None => own_name,
        };
        let logo: Option<String> = match client {
            Some(client) => match &client.logo_uri {
                Some(uri) => Some(uri.as_str().to_owned()),
                None => None,
            },
            None => None,
        };
        let avatar_type = match logo {
            Some(src) => AvatarType::Image(src),
            None => {
                let first = match &display_name {
                    Some(name) => first_char(name.as_str()),
                    None => None,
                };
                match first {
                    Some(c) => if client.is_some() {
                        AvatarType::Initial(c)
                    } else {
                        AvatarType::Initial('\u{2756}')
                    },
                    None => AvatarType::Initial('?'),
                }
            },
        };
        let seen_ms: Option<u64> = match device {
            Some(device) => device.last_seen_ts,
            None => None,
        };
        let last_active = match seen_ms {
            None => "unknown".to_owned(),
            Some(ms) => if ms <= now_ms {
                glue(ago, " ago")
            } else {
                "now".to_owned()
            },
        };
        let last_seen_ts: Option<u64> = match seen_ms {
            Some(ms) => Some(ms / 1000),
            None => None,
        };
        DeviceCard {
            device_id,
            display_name,
            avatar: Avatar { avatar_type },
            last_active,
            last_seen_ts,
            oauth_metadata: client,
        }
    }
}

/// A user's picture is their avatar, or else the first letter of their display name, or else of
/// their localpart.
pub proof fn law_user_pictures(
    user_id: Seq<char>,
    display_name: Option<Seq<char>>,
    file: Option<MediaFile>,
)
    ensures
        file matches Some(f) ==> user_avatar(user_id, display_name, file) == AvatarView::Image(
            data_url(f),
        ),
        file is None ==> {
            &&& (display_name matches Some(name) && name.len() > 0) ==> user_avatar(
                user_id,
                display_name,
                file,
            ) == AvatarView::Initial(display_name->Some_0[0])
            &&& !(display_name matches Some(name) && name.len() > 0) ==> user_avatar(
                user_id,
                display_name,
                file,
            ) == AvatarView::Initial(localpart(user_id)[0])
        },
{
}

/// A picture is put into the page with its type, or as plain bytes, and its content.
pub proof fn law_pictures_in_pages(file: MediaFile)
    ensures
        data_url(file) == "data:"@ + (if file.content_type is Some {
            file.content_type->Some_0@
        } else {
            "application/octet-stream"@
        }) + ";base64,"@ + (if file.content is Some {
            base64_standard(file.content->Some_0@)
        } else {
            Seq::empty()
        }),
{
}

/// A client's picture is its logo, or else the first letter of its name, or else a question mark.
pub proof fn law_client_pictures(client: ClientMetadata)
    ensures
        client.logo_uri matches Some(logo) ==> client_avatar(client) == AvatarView::Image(
            logo@.text,
        ),
        client.logo_uri is None && (client.client_name matches Some(name) && name@.len() > 0)
            ==> client_avatar(client) == AvatarView::Initial(client.client_name->Some_0@[0]),
        client.logo_uri is None && !(client.client_name matches Some(name) && name@.len() > 0)
            ==> client_avatar(client) == AvatarView::Initial('?'),
{
}

/// A device goes by its client's name, or else by its own. Its picture is the client's logo, or
/// else the first letter of the client's name, or a sign for a device without a client, or a
/// question mark without a name.
pub proof fn law_device_names(device: Option<Device>, client: Option<ClientMetadata>)
    ensures
        ({
            let name = device_name(device, client);
            let logo = client matches Some(c) && c.logo_uri is Some;
            &&& (client matches Some(c) && c.client_name is Some) ==> name == Some(
                client->Some_0.client_name->Some_0@,
            )
            &&& !(client matches Some(c) && c.client_name is Some) ==> name == match device {
                Some(d) => match d.display_name {
                    Some(n) => Some(n@),
                    None => None,
                },
                None => None,
            }
            &&& logo ==> device_avatar(device, client) == AvatarView::Image(
                client->Some_0.logo_uri->Some_0@.text,
            )
            &&& !logo && (name matches Some(n) && n.len() > 0) ==> device_avatar(device, client)
                == AvatarView::Initial(
                if client is Some {
                    name->Some_0[0]
                } else {
                    '\u{2756}'
                },
            )
            &&& !logo && !(name matches Some(n) && n.len() > 0) ==> device_avatar(device, client)
                == AvatarView::Initial('?')
        }),
{
}

/// When a device was active: how long ago, or now if that is still to come, or unknown.
pub proof fn law_last_activity(device: Option<Device>, now_ms: u64, ago: Seq<char>)
    ensures
        ({
            let at = match device {
                Some(d) => d.last_seen_ts,
                None => None,
            };
            &&& seen(device) == at
            &&& at is None ==> activity(at, now_ms, ago) == "unknown"@
            &&& at matches Some(ms) ==> {
                &&& ms <= now_ms ==> activity(at, now_ms, ago) == ago + " ago"@
                &&& ms > now_ms ==> activity(at, now_ms, ago) == "now"@
            }
        }),
{
}

/// A picture is told as a letter or as an image.
pub proof fn law_told_of_avatar(it: Avatar)
    ensures
        it.avatar_type matches AvatarType::Initial(c) ==> it@ == AvatarView::Initial(c),
        it.avatar_type matches AvatarType::Image(src) ==> it@ == AvatarView::Image(src@),
{
}

} // verus!
