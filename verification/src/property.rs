//! The JMAP property vocabulary and its parsers.
//!
//! A property name arrives as a JSON string; the parsers fold its bytes into
//! a first character plus a little-endian packed hash and look the pair up
//! in the vocabulary. Unknown names are preserved verbatim. A name of the
//! form `header:<name>[:as<Form>][:all]` parses into a header property.

use vstd::prelude::*;

use crate::parser::{lossy_string, spec_lossy, spec_next, spec_string_end, ParseError, Parser};

verus! {

/// A JMAP object property.
#[derive(Debug, PartialEq, Eq, Hash, Clone)]
pub enum Property {
    Acl,
    Aliases,
    Attachments,
    Bcc,
    BlobId,
    BodyStructure,
    BodyValues,
    Capabilities,
    Cc,
    Charset,
    Cid,
    DeliveryStatus,
    Description,
    DeviceClientId,
    Disposition,
    DsnBlobIds,
    Email,
    EmailId,
    EmailIds,
    Envelope,
    Expires,
    From,
    FromDate,
    HasAttachment,
    Headers,
    HtmlBody,
    HtmlSignature,
    Id,
    IdentityId,
    InReplyTo,
    IsActive,
    IsEnabled,
    IsSubscribed,
    Keys,
    Keywords,
    Language,
    Location,
    MailboxIds,
    MayDelete,
    MdnBlobIds,
    Members,
    MessageId,
    MyRights,
    Name,
    ParentId,
    PartId,
    Picture,
    Preview,
    Quota,
    ReceivedAt,
    References,
    ReplyTo,
    Role,
    Secret,
    SendAt,
    Sender,
    SentAt,
    Size,
    SortOrder,
    Subject,
    SubParts,
    TextBody,
    TextSignature,
    ThreadId,
    Timezone,
    To,
    ToDate,
    TotalEmails,
    TotalThreads,
    Type,
    Types,
    UndoStatus,
    UnreadEmails,
    UnreadThreads,
    Url,
    VerificationCode,
    Addresses,
    P256dh,
    Auth,
    Value,
    SmtpReply,
    Delivered,
    Displayed,
    MailFrom,
    RcptTo,
    Parameters,
    IsEncodingProblem,
    IsTruncated,
    MayReadItems,
    MayAddItems,
    MayRemoveItems,
    MaySetSeen,
    MaySetKeywords,
    MayCreateChild,
    MayRename,
    MaySubmit,
    Header(HeaderProperty),
    _T(String),
}

/// A property of the `header:...` family.
#[derive(Debug, PartialEq, Eq, Hash, Clone)]
pub struct HeaderProperty {
    /// The form the header value is requested in.
    pub form: HeaderForm,
    /// The header name.
    pub header: String,
    /// Whether every instance of the header is requested.
    pub all: bool,
}

/// The form a header value is requested in.
#[derive(Debug, PartialEq, Eq, Hash, Clone, Copy, Structural)]
pub enum HeaderForm {
    Raw,
    Text,
    Addresses,
    GroupedAddresses,
    MessageIds,
    Date,
    URLs,
}

/// Conversion into a `Property`.
pub trait IntoProperty: Sized {
    /// Consumes the value and yields the property it names.
    fn into_property(self) -> Property;
}

impl IntoProperty for String {
    fn into_property(self) -> (r: Property) {
        Property::_T(self)
    }
}

/// The vocabulary of `Property::parse`: the property named by a first
/// character and a packed hash of the remaining characters.
pub open spec fn spec_known_property(first_char: u8, hash: u128) -> Option<Property> {
    match first_char {
        97 => match hash {
            0x6c63 => Some(Property::Acl),
            0x7365_7361_696c => Some(Property::Aliases),
            0x7374_6e65_6d68_6361_7474 => Some(Property::Attachments),
            _ => None,
        },
        98 => match hash {
            0x6363 => Some(Property::Bcc),
            0x6449_626f_6c => Some(Property::BlobId),
            0x6572_7574_6375_7274_5379_646f => Some(Property::BodyStructure),
            0x7365_756c_6156_7964_6f => Some(Property::BodyValues),
            _ => None,
        },
        99 => match hash {
            0x7365_6974_696c_6962_6170_61 => Some(Property::Capabilities),
            0x63 => Some(Property::Cc),
            0x7465_7372_6168 => Some(Property::Charset),
            0x6469 => Some(Property::Cid),
            _ => None,
        },
        100 => match hash {
            0x7375_7461_7453_7972_6576_696c_65 => Some(Property::DeliveryStatus),
            0x6e6f_6974_7069_7263_7365 => Some(Property::Description),
            0x6449_746e_6569_6c43_6563_6976_65 => Some(Property::DeviceClientId),
            0x6e6f_6974_6973_6f70_7369 => Some(Property::Disposition),
            0x7364_4962_6f6c_426e_73 => Some(Property::DsnBlobIds),
            _ => None,
        },
        101 => match hash {
            0x6c69_616d => Some(Property::Email),
            0x6449_6c69_616d => Some(Property::EmailId),
            0x7364_496c_6961_6d => Some(Property::EmailIds),
            0x6570_6f6c_6576_6e => Some(Property::Envelope),
            0x7365_7269_7078 => Some(Property::Expires),
            _ => None,
        },
        102 => match hash {
            0x6d6f_72 => Some(Property::From),
            0x6574_6144_6d6f_72 => Some(Property::FromDate),
            _ => None,
        },
        104 => match hash {
            0x746e_656d_6863_6174_7441_7361 => Some(Property::HasAttachment),
            0x7372_6564_6165 => Some(Property::Headers),
            0x7964_6f42_6c6d_74 => Some(Property::HtmlBody),
            0x6572_7574_616e_6769_536c_6d74 => Some(Property::HtmlSignature),
            _ => None,
        },
        105 => match hash {
            0x64 => Some(Property::Id),
            0x0064_4979_7469_746e_6564 => Some(Property::IdentityId),
            0x6f54_796c_7065_526e => Some(Property::InReplyTo),
            0x6576_6974_6341_73 => Some(Property::IsActive),
            0x6465_6c62_616e_4573 => Some(Property::IsEnabled),
            0x6465_6269_7263_7362_7553_73 => Some(Property::IsSubscribed),
            _ => None,
        },
        107 => match hash {
            0x7379_65 => Some(Property::Keys),
            0x7364_726f_7779_65 => Some(Property::Keywords),
            _ => None,
        },
        108 => match hash {
            0x6567_6175_676e_61 => Some(Property::Language),
            0x6e6f_6974_6163_6f => Some(Property::Location),
            _ => None,
        },
        109 => match hash {
            0x7364_4978_6f62_6c69_61 => Some(Property::MailboxIds),
            0x6574_656c_6544_7961 => Some(Property::MayDelete),
            0x0073_6449_626f_6c42_6e64 => Some(Property::MdnBlobIds),
            0x7372_6562_6d65 => Some(Property::Members),
            0x6449_6567_6173_7365 => Some(Property::MessageId),
            0x7374_6867_6952_79 => Some(Property::MyRights),
            _ => None,
        },
        110 => match hash {
            0x656d_61 => Some(Property::Name),
            _ => None,
        },
        112 => match hash {
            0x6449_746e_6572_61 => Some(Property::ParentId),
            0x6449_7472_61 => Some(Property::PartId),
            0x6572_7574_6369 => Some(Property::Picture),
            0x7765_6976_6572 => Some(Property::Preview),
            _ => None,
        },
        113 => match hash {
            0x6174_6f75 => Some(Property::Quota),
            _ => None,
        },
        114 => match hash {
            0x7441_6465_7669_6563_65 => Some(Property::ReceivedAt),
            0x7365_636e_6572_6566_65 => Some(Property::References),
            0x6f54_796c_7065 => Some(Property::ReplyTo),
            0x656c_6f => Some(Property::Role),
            _ => None,
        },
        115 => match hash {
            0x7465_7263_65 => Some(Property::Secret),
            0x7441_646e_65 => Some(Property::SendAt),
            0x7265_646e_65 => Some(Property::Sender),
            0x7441_746e_65 => Some(Property::SentAt),
            0x657a_69 => Some(Property::Size),
            0x7265_6472_4f74_726f => Some(Property::SortOrder),
            0x7463_656a_6275 => Some(Property::Subject),
            0x7374_7261_5062_7573 => Some(Property::SubParts),
            _ => None,
        },
        116 => match hash {
            0x7964_6f42_7478_65 => Some(Property::TextBody),
            0x6572_7574_616e_6769_5374_7865 => Some(Property::TextSignature),
            0x6449_6461_6572_68 => Some(Property::ThreadId),
            0x656e_6f7a_656d_69 => Some(Property::Timezone),
            0x6f => Some(Property::To),
            0x6574_6144_6f => Some(Property::ToDate),
            0x736c_6961_6d45_6c61_746f => Some(Property::TotalEmails),
            0x7364_6165_7268_546c_6174_6f => Some(Property::TotalThreads),
            0x6570_79 => Some(Property::Type),
            0x7365_7079 => Some(Property::Types),
            _ => None,
        },
        117 => match hash {
            0x7375_7461_7453_6f64_6e => Some(Property::UndoStatus),
            0x736c_6961_6d45_6461_6572_6e => Some(Property::UnreadEmails),
            0x7364_6165_7268_5464_6165_726e => Some(Property::UnreadThreads),
            0x6c72 => Some(Property::Url),
            _ => None,
        },
        118 => match hash {
            0x6564_6f43_6e6f_6974_6163_6966_6972_65 => Some(Property::VerificationCode),
            _ => None,
        },
        _ => None,
    }
}

/// The vocabulary of `ObjectProperty::parse`.
pub open spec fn spec_known_object_property(first_char: u8, hash: u128) -> Option<Property> {
    match first_char {
        97 => match hash {
            0x7365_7373_6572_6464 => Some(Property::Addresses),
            0x6874_75 => Some(Property::Auth),
            _ => None,
        },
        98 => match hash {
            0x6449_626f_6c => Some(Property::BlobId),
            _ => None,
        },
        99 => match hash {
            0x7465_7372_6168 => Some(Property::Charset),
            0x6469 => Some(Property::Cid),
            _ => None,
        },
        100 => match hash {
            0x6e6f_6974_6973_6f70_7369 => Some(Property::Disposition),
            0x6465_7265_7669_6c65 => Some(Property::Delivered),
            0x6465_7961_6c70_7369 => Some(Property::Displayed),
            _ => None,
        },
        101 => match hash {
            0x6c69_616d => Some(Property::Email),
            _ => None,
        },
        104 => match hash {
            0x7372_6564_6165 => Some(Property::Headers),
            _ => None,
        },
        105 => match hash {
            0x656c_626f_7250_676e_6964_6f63_6e45_73 => Some(Property::IsEncodingProblem),
            0x6465_7461_636e_7572_5473 => Some(Property::IsTruncated),
            _ => None,
        },
        108 => match hash {
            0x6567_6175_676e_61 => Some(Property::Language),
            0x6e6f_6974_6163_6f => Some(Property::Location),
            _ => None,
        },
        109 => match hash {
            0x6d6f_7246_6c69_61 => Some(Property::MailFrom),
            0x736d_6574_4964_6165_5279_61 => Some(Property::MayReadItems),
            0x736d_6574_4964_6441_7961 => Some(Property::MayAddItems),
            0x736d_6574_4965_766f_6d65_5279_61 => Some(Property::MayRemoveItems),
            0x6e65_6553_7465_5379_61 => Some(Property::MaySetSeen),
            0x7364_726f_7779_654b_7465_5379_61 => Some(Property::MaySetKeywords),
            0x646c_6968_4365_7461_6572_4379_61 => Some(Property::MayCreateChild),
            0x656d_616e_6552_7961 => Some(Property::MayRename),
            0x6574_656c_6544_7961 => Some(Property::MayDelete),
            0x7469_6d62_7553_7961 => Some(Property::MaySubmit),
            _ => None,
        },
        110 => match hash {
            0x656d_61 => Some(Property::Name),
            _ => None,
        },
        112 => match hash {
            0x6449_7472_61 => Some(Property::PartId),
            0x0068_6436_3532 => Some(Property::P256dh),
            0x7372_6574_656d_6172_61 => Some(Property::Parameters),
            _ => None,
        },
        114 => match hash {
            0x6f54_7470_63 => Some(Property::RcptTo),
            _ => None,
        },
        115 => match hash {
            0x657a_69 => Some(Property::Size),
            0x7374_7261_5062_75 => Some(Property::SubParts),
            0x796c_7065_5270_746d => Some(Property::SmtpReply),
            _ => None,
        },
        116 => match hash {
            0x6570_79 => Some(Property::Type),
            _ => None,
        },
        118 => match hash {
            0x6575_6c61 => Some(Property::Value),
            _ => None,
        },
        _ => None,
    }
}

impl Property {
    /// The one-byte identifier a property is persisted as.
    pub open spec fn spec_id(self) -> u8 {
        match self {
            Property::IsActive => 0,
            Property::IsEnabled => 1,
            Property::IsSubscribed => 2,
            Property::Keys => 3,
            Property::Keywords => 4,
            Property::Language => 5,
            Property::Location => 6,
            Property::MailboxIds => 7,
            Property::MayDelete => 8,
            Property::MdnBlobIds => 9,
            Property::Members => 10,
            Property::MessageId => 11,
            Property::MyRights => 12,
            Property::Name => 13,
            Property::ParentId => 14,
            Property::PartId => 15,
            Property::Picture => 16,
            Property::Preview => 17,
            Property::Quota => 18,
            Property::ReceivedAt => 19,
            Property::References => 20,
            Property::ReplyTo => 21,
            Property::Role => 22,
            Property::Secret => 23,
            Property::SendAt => 24,
            Property::Sender => 25,
            Property::SentAt => 26,
            Property::Size => 27,
            Property::SortOrder => 28,
            Property::Subject => 29,
            Property::SubParts => 30,
            Property::TextBody => 31,
            Property::TextSignature => 32,
            Property::ThreadId => 33,
            Property::Timezone => 34,
            Property::To => 35,
            Property::ToDate => 36,
            Property::TotalEmails => 37,
            Property::TotalThreads => 38,
            Property::Type => 39,
            Property::Types => 40,
            Property::UndoStatus => 41,
            Property::UnreadEmails => 42,
            Property::UnreadThreads => 43,
            Property::Url => 44,
            Property::VerificationCode => 45,
            Property::Parameters => 46,
            Property::Addresses => 47,
            Property::P256dh => 48,
            Property::Auth => 49,
            Property::Value => 50,
            Property::SmtpReply => 51,
            Property::Delivered => 52,
            Property::Displayed => 53,
            Property::MailFrom => 54,
            Property::RcptTo => 55,
            Property::IsEncodingProblem => 56,
            Property::IsTruncated => 57,
            Property::MayReadItems => 58,
            Property::MayAddItems => 59,
            Property::MayRemoveItems => 60,
            Property::MaySetSeen => 61,
            Property::MaySetKeywords => 62,
            Property::MayCreateChild => 63,
            Property::MayRename => 64,
            Property::MaySubmit => 65,
            Property::Acl => 66,
            Property::Aliases => 67,
            Property::Attachments => 68,
            Property::Bcc => 69,
            Property::BlobId => 70,
            Property::BodyStructure => 71,
            Property::BodyValues => 72,
            Property::Capabilities => 73,
            Property::Cc => 74,
            Property::Charset => 75,
            Property::Cid => 76,
            Property::DeliveryStatus => 77,
            Property::Description => 78,
            Property::DeviceClientId => 79,
            Property::Disposition => 80,
            Property::DsnBlobIds => 81,
            Property::Email => 82,
            Property::EmailId => 83,
            Property::EmailIds => 84,
            Property::Envelope => 85,
            Property::Expires => 86,
            Property::From => 87,
            Property::FromDate => 88,
            Property::HasAttachment => 89,
            Property::Header(_) => 90,
            Property::Headers => 91,
            Property::HtmlBody => 92,
            Property::HtmlSignature => 93,
            Property::Id => 94,
            Property::IdentityId => 95,
            Property::InReplyTo => 96,
            Property::_T(_) => 97,
        }
    }

    /// Collapses the property to its persisted one-byte identifier.
    pub fn id(&self) -> (r: u8)
        ensures
            r == self.spec_id(),
    {
        match self {
            Property::IsActive => 0,
            Property::IsEnabled => 1,
            Property::IsSubscribed => 2,
            Property::Keys => 3,
            Property::Keywords => 4,
            Property::Language => 5,
            Property::Location => 6,
            Property::MailboxIds => 7,
            Property::MayDelete => 8,
            Property::MdnBlobIds => 9,
            Property::Members => 10,
            Property::MessageId => 11,
            Property::MyRights => 12,
            Property::Name => 13,
            Property::ParentId => 14,
            Property::PartId => 15,
            Property::Picture => 16,
            Property::Preview => 17,
            Property::Quota => 18,
            Property::ReceivedAt => 19,
            Property::References => 20,
            Property::ReplyTo => 21,
            Property::Role => 22,
            Property::Secret => 23,
            Property::SendAt => 24,
            Property::Sender => 25,
            Property::SentAt => 26,
            Property::Size => 27,
            Property::SortOrder => 28,
            Property::Subject => 29,
            Property::SubParts => 30,
            Property::TextBody => 31,
            Property::TextSignature => 32,
            Property::ThreadId => 33,
            Property::Timezone => 34,
            Property::To => 35,
            Property::ToDate => 36,
            Property::TotalEmails => 37,
            Property::TotalThreads => 38,
            Property::Type => 39,
            Property::Types => 40,
            Property::UndoStatus => 41,
            Property::UnreadEmails => 42,
            Property::UnreadThreads => 43,
            Property::Url => 44,
            Property::VerificationCode => 45,
            Property::Parameters => 46,
            Property::Addresses => 47,
            Property::P256dh => 48,
            Property::Auth => 49,
            Property::Value => 50,
            Property::SmtpReply => 51,
            Property::Delivered => 52,
            Property::Displayed => 53,
            Property::MailFrom => 54,
            Property::RcptTo => 55,
            Property::IsEncodingProblem => 56,
            Property::IsTruncated => 57,
            Property::MayReadItems => 58,
            Property::MayAddItems => 59,
            Property::MayRemoveItems => 60,
            Property::MaySetSeen => 61,
            Property::MaySetKeywords => 62,
            Property::MayCreateChild => 63,
            Property::MayRename => 64,
            Property::MaySubmit => 65,
            Property::Acl => 66,
            Property::Aliases => 67,
            Property::Attachments => 68,
            Property::Bcc => 69,
            Property::BlobId => 70,
            Property::BodyStructure => 71,
            Property::BodyValues => 72,
            Property::Capabilities => 73,
            Property::Cc => 74,
            Property::Charset => 75,
            Property::Cid => 76,
            Property::DeliveryStatus => 77,
            Property::Description => 78,
            Property::DeviceClientId => 79,
            Property::Disposition => 80,
            Property::DsnBlobIds => 81,
            Property::Email => 82,
            Property::EmailId => 83,
            Property::EmailIds => 84,
            Property::Envelope => 85,
            Property::Expires => 86,
            Property::From => 87,
            Property::FromDate => 88,
            Property::HasAttachment => 89,
            Property::Header(_) => 90,
            Property::Headers => 91,
            Property::HtmlBody => 92,
            Property::HtmlSignature => 93,
            Property::Id => 94,
            Property::IdentityId => 95,
            Property::InReplyTo => 96,
            Property::_T(_) => 97,
        }
    }

    /// Appends the persisted identifier to `buf`.
    pub fn serialize_value(self, buf: &mut Vec<u8>)
        ensures
            final(buf)@ == old(buf)@.push(self.spec_id()),
    {
        let id = self.id();
        buf.push(id);
    }

    /// The property a persisted identifier stands for: the inverse of
    /// `serialize_value`, with the header and free-form variants restored
    /// empty, as they are never serialized with their payload.
    pub fn deserialize_value(bytes: &Vec<u8>, pos: usize) -> (r: Option<Property>)
        ensures
            match r {
                Some(p) => pos < bytes@.len() && p.spec_id() == bytes@[pos as int] && (p matches
                Property::Header(hp) ==> hp.header@.len() == 0 && hp.form == HeaderForm::Raw
                    && !hp.all) && (p matches Property::_T(s) ==> s@.len() == 0),
                None => pos >= bytes@.len() || bytes@[pos as int] > 97,
            },
    {
        if pos >= bytes.len() {
            return None;
        }
        match bytes[pos] {
            0 => Some(Property::IsActive),
            1 => Some(Property::IsEnabled),
            2 => Some(Property::IsSubscribed),
            3 => Some(Property::Keys),
            4 => Some(Property::Keywords),
            5 => Some(Property::Language),
            6 => Some(Property::Location),
            7 => Some(Property::MailboxIds),
            8 => Some(Property::MayDelete),
            9 => Some(Property::MdnBlobIds),
            10 => Some(Property::Members),
            11 => Some(Property::MessageId),
            12 => Some(Property::MyRights),
            13 => Some(Property::Name),
            14 => Some(Property::ParentId),
            15 => Some(Property::PartId),
            16 => Some(Property::Picture),
            17 => Some(Property::Preview),
            18 => Some(Property::Quota),
            19 => Some(Property::ReceivedAt),
            20 => Some(Property::References),
            21 => Some(Property::ReplyTo),
            22 => Some(Property::Role),
            23 => Some(Property::Secret),
            24 => Some(Property::SendAt),
            25 => Some(Property::Sender),
            26 => Some(Property::SentAt),
            27 => Some(Property::Size),
            28 => Some(Property::SortOrder),
            29 => Some(Property::Subject),
            30 => Some(Property::SubParts),
            31 => Some(Property::TextBody),
            32 => Some(Property::TextSignature),
            33 => Some(Property::ThreadId),
            34 => Some(Property::Timezone),
            35 => Some(Property::To),
            36 => Some(Property::ToDate),
            37 => Some(Property::TotalEmails),
            38 => Some(Property::TotalThreads),
            39 => Some(Property::Type),
            40 => Some(Property::Types),
            41 => Some(Property::UndoStatus),
            42 => Some(Property::UnreadEmails),
            43 => Some(Property::UnreadThreads),
            44 => Some(Property::Url),
            45 => Some(Property::VerificationCode),
            46 => Some(Property::Parameters),
            47 => Some(Property::Addresses),
            48 => Some(Property::P256dh),
            49 => Some(Property::Auth),
            50 => Some(Property::Value),
            51 => Some(Property::SmtpReply),
            52 => Some(Property::Delivered),
            53 => Some(Property::Displayed),
            54 => Some(Property::MailFrom),
            55 => Some(Property::RcptTo),
            56 => Some(Property::IsEncodingProblem),
            57 => Some(Property::IsTruncated),
            58 => Some(Property::MayReadItems),
            59 => Some(Property::MayAddItems),
            60 => Some(Property::MayRemoveItems),
            61 => Some(Property::MaySetSeen),
            62 => Some(Property::MaySetKeywords),
            63 => Some(Property::MayCreateChild),
            64 => Some(Property::MayRename),
            65 => Some(Property::MaySubmit),
            66 => Some(Property::Acl),
            67 => Some(Property::Aliases),
            68 => Some(Property::Attachments),
            69 => Some(Property::Bcc),
            70 => Some(Property::BlobId),
            71 => Some(Property::BodyStructure),
            72 => Some(Property::BodyValues),
            73 => Some(Property::Capabilities),
            74 => Some(Property::Cc),
            75 => Some(Property::Charset),
            76 => Some(Property::Cid),
            77 => Some(Property::DeliveryStatus),
            78 => Some(Property::Description),
            79 => Some(Property::DeviceClientId),
            80 => Some(Property::Disposition),
            81 => Some(Property::DsnBlobIds),
            82 => Some(Property::Email),
            83 => Some(Property::EmailId),
            84 => Some(Property::EmailIds),
            85 => Some(Property::Envelope),
            86 => Some(Property::Expires),
            87 => Some(Property::From),
            88 => Some(Property::FromDate),
            89 => Some(Property::HasAttachment),
            90 => Some(
                Property::Header(
                    HeaderProperty { form: HeaderForm::Raw, header: String::new(), all: false },
                ),
            ),
            91 => Some(Property::Headers),
            92 => Some(Property::HtmlBody),
            93 => Some(Property::HtmlSignature),
            94 => Some(Property::Id),
            95 => Some(Property::IdentityId),
            96 => Some(Property::InReplyTo),
            97 => Some(Property::_T(String::new())),
            _ => None,
        }
    }

    /// The property's JMAP name; a header property reports only its family
    /// prefix and a preserved unknown name reports itself.
    pub fn name(&self) -> (r: &'static str)
        ensures
            r@ == self.spec_name(),
    {
        match self {
            Property::Acl => "acl",
            Property::Aliases => "aliases",
            Property::Attachments => "attachments",
            Property::Bcc => "bcc",
            Property::BlobId => "blobId",
            Property::BodyStructure => "bodyStructure",
            Property::BodyValues => "bodyValues",
            Property::Capabilities => "capabilities",
            Property::Cc => "cc",
            Property::Charset => "charset",
            Property::Cid => "cid",
            Property::DeliveryStatus => "deliveryStatus",
            Property::Description => "description",
            Property::DeviceClientId => "deviceClientId",
            Property::Disposition => "disposition",
            Property::DsnBlobIds => "dsnBlobIds",
            Property::Email => "email",
            Property::EmailId => "emailId",
            Property::EmailIds => "emailIds",
            Property::Envelope => "envelope",
            Property::Expires => "expires",
            Property::From => "from",
            Property::FromDate => "fromDate",
            Property::HasAttachment => "hasAttachment",
            Property::Headers => "headers",
            Property::HtmlBody => "htmlBody",
            Property::HtmlSignature => "htmlSignature",
            Property::Id => "id",
            Property::IdentityId => "identityId",
            Property::InReplyTo => "inReplyTo",
            Property::IsActive => "isActive",
            Property::IsEnabled => "isEnabled",
            Property::IsSubscribed => "isSubscribed",
            Property::Keys => "keys",
            Property::Keywords => "keywords",
            Property::Language => "language",
            Property::Location => "location",
            Property::MailboxIds => "mailboxIds",
            Property::MayDelete => "mayDelete",
            Property::MdnBlobIds => "mdnBlobIds",
            Property::Members => "members",
            Property::MessageId => "messageId",
            Property::MyRights => "myRights",
            Property::Name => "name",
            Property::ParentId => "parentId",
            Property::PartId => "partId",
            Property::Picture => "picture",
            Property::Preview => "preview",
            Property::Quota => "quota",
            Property::ReceivedAt => "receivedAt",
            Property::References => "references",
            Property::ReplyTo => "replyTo",
            Property::Role => "role",
            Property::Secret => "secret",
            Property::SendAt => "sendAt",
            Property::Sender => "sender",
            Property::SentAt => "sentAt",
            Property::Size => "size",
            Property::SortOrder => "sortOrder",
            Property::Subject => "subject",
            Property::SubParts => "subParts",
            Property::TextBody => "textBody",
            Property::TextSignature => "textSignature",
            Property::ThreadId => "threadId",
            Property::Timezone => "timezone",
            Property::To => "to",
            Property::ToDate => "toDate",
            Property::TotalEmails => "totalEmails",
            Property::TotalThreads => "totalThreads",
            Property::Type => "type",
            Property::Types => "types",
            Property::UndoStatus => "undoStatus",
            Property::UnreadEmails => "unreadEmails",
            Property::UnreadThreads => "unreadThreads",
            Property::Url => "url",
            Property::VerificationCode => "verificationCode",
            Property::Parameters => "parameters",
            Property::Addresses => "addresses",
            Property::P256dh => "p256dh",
            Property::Auth => "auth",
            Property::Value => "value",
            Property::SmtpReply => "smtpReply",
            Property::Delivered => "delivered",
            Property::Displayed => "displayed",
            Property::MailFrom => "mailFrom",
            Property::RcptTo => "rcptTo",
            Property::IsEncodingProblem => "isEncodingProblem",
            Property::IsTruncated => "isTruncated",
            Property::MayReadItems => "mayReadItems",
            Property::MayAddItems => "mayAddItems",
            Property::MayRemoveItems => "mayRemoveItems",
            Property::MaySetSeen => "maySetSeen",
            Property::MaySetKeywords => "maySetKeywords",
            Property::MayCreateChild => "mayCreateChild",
            Property::MayRename => "mayRename",
            Property::MaySubmit => "maySubmit",
            Property::Header(_) => "header",
            Property::_T(_) => "",
        }
    }

    /// What `name` returns.
    pub open spec fn spec_name(self) -> Seq<char> {
        match self {
            Property::Acl => "acl"@,
            Property::Aliases => "aliases"@,
            Property::Attachments => "attachments"@,
            Property::Bcc => "bcc"@,
            Property::BlobId => "blobId"@,
            Property::BodyStructure => "bodyStructure"@,
            Property::BodyValues => "bodyValues"@,
            Property::Capabilities => "capabilities"@,
            Property::Cc => "cc"@,
            Property::Charset => "charset"@,
            Property::Cid => "cid"@,
            Property::DeliveryStatus => "deliveryStatus"@,
            Property::Description => "description"@,
            Property::DeviceClientId => "deviceClientId"@,
            Property::Disposition => "disposition"@,
            Property::DsnBlobIds => "dsnBlobIds"@,
            Property::Email => "email"@,
            Property::EmailId => "emailId"@,
            Property::EmailIds => "emailIds"@,
            Property::Envelope => "envelope"@,
            Property::Expires => "expires"@,
            Property::From => "from"@,
            Property::FromDate => "fromDate"@,
            Property::HasAttachment => "hasAttachment"@,
            Property::Headers => "headers"@,
            Property::HtmlBody => "htmlBody"@,
            Property::HtmlSignature => "htmlSignature"@,
            Property::Id => "id"@,
            Property::IdentityId => "identityId"@,
            Property::InReplyTo => "inReplyTo"@,
            Property::IsActive => "isActive"@,
            Property::IsEnabled => "isEnabled"@,
            Property::IsSubscribed => "isSubscribed"@,
            Property::Keys => "keys"@,
            Property::Keywords => "keywords"@,
            Property::Language => "language"@,
            Property::Location => "location"@,
            Property::MailboxIds => "mailboxIds"@,
            Property::MayDelete => "mayDelete"@,
            Property::MdnBlobIds => "mdnBlobIds"@,
            Property::Members => "members"@,
            Property::MessageId => "messageId"@,
            Property::MyRights => "myRights"@,
            Property::Name => "name"@,
            Property::ParentId => "parentId"@,
            Property::PartId => "partId"@,
            Property::Picture => "picture"@,
            Property::Preview => "preview"@,
            Property::Quota => "quota"@,
            Property::ReceivedAt => "receivedAt"@,
            Property::References => "references"@,
            Property::ReplyTo => "replyTo"@,
            Property::Role => "role"@,
            Property::Secret => "secret"@,
            Property::SendAt => "sendAt"@,
            Property::Sender => "sender"@,
            Property::SentAt => "sentAt"@,
            Property::Size => "size"@,
            Property::SortOrder => "sortOrder"@,
            Property::Subject => "subject"@,
            Property::SubParts => "subParts"@,
            Property::TextBody => "textBody"@,
            Property::TextSignature => "textSignature"@,
            Property::ThreadId => "threadId"@,
            Property::Timezone => "timezone"@,
            Property::To => "to"@,
            Property::ToDate => "toDate"@,
            Property::TotalEmails => "totalEmails"@,
            Property::TotalThreads => "totalThreads"@,
            Property::Type => "type"@,
            Property::Types => "types"@,
            Property::UndoStatus => "undoStatus"@,
            Property::UnreadEmails => "unreadEmails"@,
            Property::UnreadThreads => "unreadThreads"@,
            Property::Url => "url"@,
            Property::VerificationCode => "verificationCode"@,
            Property::Parameters => "parameters"@,
            Property::Addresses => "addresses"@,
            Property::P256dh => "p256dh"@,
            Property::Auth => "auth"@,
            Property::Value => "value"@,
            Property::SmtpReply => "smtpReply"@,
            Property::Delivered => "delivered"@,
            Property::Displayed => "displayed"@,
            Property::MailFrom => "mailFrom"@,
            Property::RcptTo => "rcptTo"@,
            Property::IsEncodingProblem => "isEncodingProblem"@,
            Property::IsTruncated => "isTruncated"@,
            Property::MayReadItems => "mayReadItems"@,
            Property::MayAddItems => "mayAddItems"@,
            Property::MayRemoveItems => "mayRemoveItems"@,
            Property::MaySetSeen => "maySetSeen"@,
            Property::MaySetKeywords => "maySetKeywords"@,
            Property::MayCreateChild => "mayCreateChild"@,
            Property::MayRename => "mayRename"@,
            Property::MaySubmit => "maySubmit"@,
            Property::Header(_) => "header"@,
            Property::_T(_) => ""@,
        }
    }
}


/// A property of a nested object.
#[derive(Debug, PartialEq, Eq, Clone)]
pub struct ObjectProperty(pub Property);

impl IntoProperty for ObjectProperty {
    fn into_property(self) -> (r: Property) {
        self.0
    }
}

/// A property under `set`, with reference and patch-path annotations. The
/// patch values are kept as the raw path segments; decoding them into typed
/// values belongs to the JMAP value layer outside this crate.
#[derive(Debug, PartialEq, Eq, Clone)]
pub struct SetProperty {
    /// The property named.
    pub property: Property,
    /// Raw patch path segments, when the name carried a `/` path.
    pub patch: Vec<String>,
    /// Whether the name was prefixed with `#`.
    pub is_ref: bool,
}

/// Outcome of scanning a property name: the packed name and the cursor
/// after the closing quote; a switch into the `header:` family; a character
/// the vocabulary cannot hold; or an unterminated string.
#[verifier::ext_equal]
pub ghost enum NameScan {
    /// The string closed; the name packs to this pair.
    Known { first_char: u8, hash: u128, end: int },
    /// A `:` followed the prefix `header`; parsing continues there.
    Header { at: int },
    /// A byte outside the vocabulary, or a name too long to pack.
    Bad,
    /// The input ended inside the string.
    Unterminated,
}

/// The scan of a property name from `pos`, with the fold state so far.
pub open spec fn spec_scan_name(
    bytes: Seq<u8>,
    pos: int,
    first: u8,
    hash: u128,
    shift: nat,
) -> NameScan
    decreases bytes.len() - pos,
{
    if pos < 0 || pos >= bytes.len() {
        NameScan::Unterminated
    } else if bytes[pos] == 34 {
        NameScan::Known { first_char: first, hash, end: pos + 1 }
    } else if bytes[pos] == 92 && pos + 1 >= bytes.len() {
        NameScan::Unterminated
    } else {
        let ch = if bytes[pos] == 92 {
            bytes[pos + 1]
        } else {
            bytes[pos]
        };
        let p = if bytes[pos] == 92 {
            pos + 2
        } else {
            pos + 1
        };
        if (65 <= ch <= 90) || (97 <= ch <= 122) {
            if first != 0 {
                if shift < 128 {
                    spec_scan_name(bytes, p, first, hash | ((ch as u128) << shift), shift + 8)
                } else {
                    NameScan::Bad
                }
            } else {
                spec_scan_name(bytes, p, ch, hash, shift)
            }
        } else if ch == 58 && first == 104 && hash == 0x7265_6461_65 {
            NameScan::Header { at: p }
        } else {
            NameScan::Bad
        }
    }
}

/// Scan to the next unescaped colon: the cursor after it, or after the
/// closing quote when none comes first; `None` when the input ends inside
/// the string.
pub open spec fn spec_scan_to_colon(bytes: Seq<u8>, pos: int) -> Option<(int, bool)>
    decreases bytes.len() - pos,
{
    if pos < 0 || pos >= bytes.len() {
        None
    } else if bytes[pos] == 34 {
        Some((pos + 1, false))
    } else if bytes[pos] == 92 {
        if pos + 1 < bytes.len() {
            if bytes[pos + 1] == 58 {
                Some((pos + 2, true))
            } else {
                spec_scan_to_colon(bytes, pos + 2)
            }
        } else {
            None
        }
    } else if bytes[pos] == 58 {
        Some((pos + 1, true))
    } else {
        spec_scan_to_colon(bytes, pos + 1)
    }
}

/// Outcome of scanning a `header:` form suffix.
#[verifier::ext_equal]
pub ghost enum FormScan {
    /// The suffix packs to this hash; the cursor stops after the closing
    /// quote or the next colon.
    Got { hash: u128, end: int, has_next: bool },
    /// The suffix is too long to pack.
    Bad,
    /// The input ended inside the string.
    Unterminated,
}

/// The scan of a form suffix from `pos`.
pub open spec fn spec_scan_form(bytes: Seq<u8>, pos: int, hash: u128, shift: nat) -> FormScan
    decreases bytes.len() - pos,
{
    if pos < 0 || pos >= bytes.len() {
        FormScan::Unterminated
    } else if bytes[pos] == 34 {
        FormScan::Got { hash, end: pos + 1, has_next: false }
    } else if bytes[pos] == 92 && pos + 1 >= bytes.len() {
        FormScan::Unterminated
    } else {
        let ch = if bytes[pos] == 92 {
            bytes[pos + 1]
        } else {
            bytes[pos]
        };
        let p = if bytes[pos] == 92 {
            pos + 2
        } else {
            pos + 1
        };
        if ch == 58 {
            FormScan::Got { hash, end: p, has_next: true }
        } else if shift < 128 {
            spec_scan_form(bytes, p, hash | ((ch as u128) << shift), shift + 8)
        } else {
            FormScan::Bad
        }
    }
}

/// The form named by a packed `as...` suffix.
pub open spec fn spec_known_form(hash: u128) -> Option<HeaderForm> {
    if hash == 0x7478_6554 {
        Some(HeaderForm::Text)
    } else if hash == 0x7365_7373_6572_6464_41 {
        Some(HeaderForm::Addresses)
    } else if hash == 0x7365_7373_6572_6464_4164_6570_756f_7247 {
        Some(HeaderForm::GroupedAddresses)
    } else if hash == 0x7364_4965_6761_7373_654d {
        Some(HeaderForm::MessageIds)
    } else if hash == 0x6574_6144 {
        Some(HeaderForm::Date)
    } else if hash == 0x734c_5255 {
        Some(HeaderForm::URLs)
    } else if hash == 0x7761_52 {
        Some(HeaderForm::Raw)
    } else {
        None
    }
}

/// Outcome of parsing a whole `header:...` name.
#[verifier::ext_equal]
pub ghost enum HeaderScan {
    /// The grammar matched: raw header name bytes, form, `:all` flag, and
    /// the cursor after the closing quote.
    Done { raw: Seq<u8>, form: HeaderForm, all: bool, end: int },
    /// The grammar did not match; the name is preserved verbatim instead.
    Bad,
    /// The input ended inside the string.
    Unterminated,
}

/// The parse of a `header:` name from `pos` (just after that first colon):
/// a non-empty header name, an optional `:as<Form>` suffix, an optional
/// final `:all`.
pub open spec fn spec_parse_header(bytes: Seq<u8>, pos: int) -> HeaderScan {
    match spec_scan_to_colon(bytes, pos) {
        None => HeaderScan::Unterminated,
        Some((p1, has_next)) => {
            if !(p1 > pos + 1) {
                HeaderScan::Bad
            } else {
                let raw = bytes.subrange(pos, p1 - 1);
                if !has_next {
                    HeaderScan::Done { raw, form: HeaderForm::Raw, all: false, end: p1 }
                } else {
                    match spec_next(bytes, p1) {
                        None => HeaderScan::Unterminated,
                        Some((c1, p2)) => match spec_next(bytes, p2) {
                            None => HeaderScan::Unterminated,
                            Some((c2, p3)) => if c1 == Some(97u8) && c2 == Some(115u8) {
                                spec_parse_header_form(bytes, p3, raw)
                            } else if c1 == Some(97u8) && c2 == Some(108u8) {
                                match spec_next(bytes, p3) {
                                    None => HeaderScan::Unterminated,
                                    Some((c3, p4)) => match spec_next(bytes, p4) {
                                        None => HeaderScan::Unterminated,
                                        Some((c4, p5)) => if c3 == Some(108u8) && c4
                                            == None::<u8> {
                                            HeaderScan::Done {
                                                raw,
                                                form: HeaderForm::Raw,
                                                all: true,
                                                end: p5,
                                            }
                                        } else {
                                            HeaderScan::Bad
                                        },
                                    },
                                }
                            } else {
                                HeaderScan::Bad
                            },
                        },
                    }
                }
            }
        },
    }
}

/// The `as<Form>[:all]` tail of a header name.
pub open spec fn spec_parse_header_form(bytes: Seq<u8>, pos: int, raw: Seq<u8>) -> HeaderScan {
    match spec_scan_form(bytes, pos, 0, 0) {
        FormScan::Unterminated => HeaderScan::Unterminated,
        FormScan::Bad => HeaderScan::Bad,
        FormScan::Got { hash, end, has_next } => match spec_known_form(hash) {
            None => HeaderScan::Bad,
            Some(form) => if !has_next {
                HeaderScan::Done { raw, form, all: false, end }
            } else {
                match spec_next(bytes, end) {
                    None => HeaderScan::Unterminated,
                    Some((c1, q1)) => match spec_next(bytes, q1) {
                        None => HeaderScan::Unterminated,
                        Some((c2, q2)) => match spec_next(bytes, q2) {
                            None => HeaderScan::Unterminated,
                            Some((c3, q3)) => if c1 == Some(97u8) && c2 == Some(108u8) && c3
                                == Some(108u8) {
                                match spec_next(bytes, q3) {
                                    None => HeaderScan::Unterminated,
                                    Some((c4, q4)) => if c4 == None::<u8> {
                                        HeaderScan::Done { raw, form, all: true, end: q4 }
                                    } else {
                                        HeaderScan::Bad
                                    },
                                }
                            } else {
                                HeaderScan::Bad
                            },
                        },
                    },
                }
            },
        },
    }
}

/// The raw bytes `invalid_property` preserves: everything read so far when
/// the input already ended; the name without its closing quote when the
/// cursor sits right after one; otherwise the rest of the string without
/// its closing quote.
pub open spec fn spec_invalid_raw(bytes: Seq<u8>, marker: int, pos: int, is_eof: bool) -> Seq<u8> {
    if is_eof {
        bytes.subrange(marker, pos)
    } else if pos > 0 && pos <= bytes.len() && bytes[pos - 1] == 34 {
        bytes.subrange(marker, if pos - 1 >= marker { pos - 1 } else { marker })
    } else {
        match spec_string_end(bytes, pos) {
            Some(e) => bytes.subrange(marker, if e - 1 >= marker { e - 1 } else { marker }),
            None => Seq::empty(),
        }
    }
}

impl Parser {
    /// Recovers an unrecognized name: skips to the string's end if the
    /// cursor is not already there, and preserves the raw name verbatim.
    /// Reports the unterminated string otherwise.
    pub fn invalid_property(&mut self) -> (r: Result<Property, ParseError>)
        requires
            old(self).wf(),
        ensures
            final(self).wf(),
            final(self).bytes == old(self).bytes,
            match r {
                Ok(p) => p matches Property::_T(s) && s@ == spec_lossy(
                    spec_invalid_raw(
                        old(self).bytes@,
                        old(self).pos_marker as int,
                        old(self).pos as int,
                        old(self).is_eof,
                    ),
                ),
                Err(e) => e == ParseError::UnterminatedString,
            },
            r is Err <==> !old(self).is_eof && !(old(self).pos > 0 && old(self).pos <= old(
                self,
            ).bytes@.len() && old(self).bytes@[old(self).pos - 1] == 34) && spec_string_end(
                old(self).bytes@,
                old(self).pos as int,
            ) is None,
    {
        if self.is_eof {
            let raw = slice_range(&self.bytes, self.pos_marker, self.pos);
            return Ok(Property::_T(lossy_string(raw.as_slice())));
        }
        if self.pos > 0 && self.pos <= self.bytes.len() && self.bytes[self.pos - 1] == 34 {
            let hi = if self.pos - 1 >= self.pos_marker {
                self.pos - 1
            } else {
                self.pos_marker
            };
            let raw = slice_range(&self.bytes, self.pos_marker, hi);
            return Ok(Property::_T(lossy_string(raw.as_slice())));
        }
        if self.skip_string() {
            let hi = if self.pos >= self.pos_marker + 1 {
                self.pos - 1
            } else {
                self.pos_marker
            };
            let raw = slice_range(&self.bytes, self.pos_marker, hi);
            Ok(Property::_T(lossy_string(raw.as_slice())))
        } else {
            Err(ParseError::UnterminatedString)
        }
    }
}

/// Copies `v[lo..hi]`.
fn slice_range(v: &Vec<u8>, lo: usize, hi: usize) -> (r: Vec<u8>)
    requires
        lo <= hi <= v@.len(),
    ensures
        r@ == v@.subrange(lo as int, hi as int),
{
    let mut r: Vec<u8> = Vec::new();
    let mut i: usize = lo;
    while i < hi
        invariant
            lo <= i <= hi <= v@.len(),
            r@ =~= v@.subrange(lo as int, i as int),
        decreases hi - i,
    {
        r.push(v[i]);
        proof {
            assert(v@.subrange(lo as int, i + 1) =~= v@.subrange(lo as int, i as int) + seq![
                v@[i as int],
            ]);
        }
        i = i + 1;
    }
    r
}

/// Looks the packed name up in the main vocabulary, preserving unknown
/// names verbatim.
pub fn parse_property(parser: &mut Parser, first_char: u8, hash: u128) -> (r: Result<
    Property,
    ParseError,
>)
    requires
        old(parser).wf(),
    ensures
        final(parser).wf(),
        final(parser).bytes == old(parser).bytes,
        match spec_known_property(first_char, hash) {
            Some(p) => r == Ok::<Property, ParseError>(p) && *final(parser) == *old(parser),
            None => match r {
                Ok(p) => p matches Property::_T(s) && s@ == spec_lossy(
                    spec_invalid_raw(
                        old(parser).bytes@,
                        old(parser).pos_marker as int,
                        old(parser).pos as int,
                        old(parser).is_eof,
                    ),
                ),
                Err(e) => e == ParseError::UnterminatedString,
            },
        },
{
    match lookup_property(first_char, hash) {
        Some(p) => Ok(p),
        None => parser.invalid_property(),
    }
}

/// Parses a `header:<name>[:as<Form>][:all]` name, the cursor standing just
/// after that colon.
pub fn parse_header_property(parser: &mut Parser) -> (r: Result<Property, ParseError>)
    requires
        old(parser).wf(),
    ensures
        final(parser).wf(),
        final(parser).bytes == old(parser).bytes,
        match spec_parse_header(old(parser).bytes@, old(parser).pos as int) {
            HeaderScan::Done { raw, form, all, end } => r matches Ok(p) && (p matches
            Property::Header(hp) && hp.header@ == spec_lossy(raw) && hp.form == form && hp.all
                == all) && final(parser).pos == end,
            HeaderScan::Bad => (r matches Ok(p) ==> p is _T),
            HeaderScan::Unterminated => r is Err,
        },
{
    let hdr_start_pos = parser.pos;
    let mut has_next = false;

    loop
        invariant_except_break
            !has_next,
            spec_scan_to_colon(parser.bytes@, parser.pos as int) == spec_scan_to_colon(
                old(parser).bytes@,
                old(parser).pos as int,
            ),
        invariant
            parser.wf(),
            parser.bytes == old(parser).bytes,
            parser.pos_marker == old(parser).pos_marker,
            parser.pos >= hdr_start_pos,
            hdr_start_pos == old(parser).pos,
        ensures
            parser.wf(),
            parser.bytes == old(parser).bytes,
            parser.pos_marker == old(parser).pos_marker,
            parser.pos >= hdr_start_pos,
            hdr_start_pos == old(parser).pos,
            spec_scan_to_colon(old(parser).bytes@, old(parser).pos as int) == Some(
                (parser.pos as int, has_next),
            ),
        decreases parser.bytes@.len() - parser.pos,
    {
        match parser.next_unescaped() {
            Err(e) => {
                proof {
                    assert(spec_scan_to_colon(old(parser).bytes@, old(parser).pos as int)
                        is None);
                }
                return Err(e);
            },
            Ok(None) => {
                break ;
            },
            Ok(Some(ch)) => {
                if ch == 58 {
                    has_next = true;
                    break ;
                }
            },
        }
    }

    let mut all = false;
    let mut form = HeaderForm::Raw;
    let header: String = if parser.pos - hdr_start_pos > 1 {
        let raw = slice_range(&parser.bytes, hdr_start_pos, parser.pos - 1);
        lossy_string(raw.as_slice())
    } else {
        match parser.invalid_property() {
            Ok(p) => {
                return Ok(p);
            },
            Err(e) => {
                return Err(e);
            },
        }
    };
    let ghost raw_spec = parser.bytes@.subrange(hdr_start_pos as int, parser.pos - 1);

    if has_next {
        let c1 = match parser.next_unescaped() {
            Ok(c) => c,
            Err(e) => {
                return Err(e);
            },
        };
        let c2 = match parser.next_unescaped() {
            Ok(c) => c,
            Err(e) => {
                return Err(e);
            },
        };
        if c1 == Some(97) && c2 == Some(115) {
            let mut hash: u128 = 0;
            let mut shift: u32 = 0;
            has_next = false;
            let ghost form_from = parser.pos as int;
            loop
                invariant_except_break
                    !has_next,
                    spec_scan_form(parser.bytes@, parser.pos as int, hash, shift as nat)
                        == spec_scan_form(parser.bytes@, form_from, 0, 0),
                invariant
                    parser.wf(),
                    parser.bytes == old(parser).bytes,
                    parser.pos_marker == old(parser).pos_marker,
                    header@ == spec_lossy(raw_spec),
                    spec_parse_header(old(parser).bytes@, old(parser).pos as int)
                        == spec_parse_header_form(parser.bytes@, form_from, raw_spec),
                ensures
                    parser.wf(),
                    parser.bytes == old(parser).bytes,
                    parser.pos_marker == old(parser).pos_marker,
                    spec_scan_form(parser.bytes@, form_from, 0, 0) == (FormScan::Got {
                        hash,
                        end: parser.pos as int,
                        has_next,
                    }),
                decreases parser.bytes@.len() - parser.pos,
            {
                match parser.next_unescaped() {
                    Err(e) => {
                        proof {
                            assert(spec_scan_form(parser.bytes@, form_from, 0, 0)
                                is Unterminated);
                        }
                        return Err(e);
                    },
                    Ok(None) => {
                        break ;
                    },
                    Ok(Some(ch)) => {
                        if ch == 58 {
                            has_next = true;
                            break ;
                        } else if shift < 128 {
                            hash = hash | ((ch as u128) << shift);
                            shift = shift + 8;
                        } else {
                            proof {
                                assert(spec_scan_form(parser.bytes@, form_from, 0, 0) is Bad);
                            }
                            match parser.invalid_property() {
                                Ok(p) => {
                                    return Ok(p);
                                },
                                Err(e) => {
                                    return Err(e);
                                },
                            }
                        }
                    },
                }
            }
            form = match lookup_form(hash) {
                Some(f) => f,
                None => {
                    match parser.invalid_property() {
                        Ok(p) => {
                            return Ok(p);
                        },
                        Err(e) => {
                            return Err(e);
                        },
                    }
                },
            };
            if has_next {
                let a1 = match parser.next_unescaped() {
                    Ok(c) => c,
                    Err(e) => {
                        return Err(e);
                    },
                };
                let a2 = match parser.next_unescaped() {
                    Ok(c) => c,
                    Err(e) => {
                        return Err(e);
                    },
                };
                let a3 = match parser.next_unescaped() {
                    Ok(c) => c,
                    Err(e) => {
                        return Err(e);
                    },
                };
                if !(a1 == Some(97) && a2 == Some(108) && a3 == Some(108)) {
                    match parser.invalid_property() {
                        Ok(p) => {
                            return Ok(p);
                        },
                        Err(e) => {
                            return Err(e);
                        },
                    }
                }
                let a4 = match parser.next_unescaped() {
                    Ok(c) => c,
                    Err(e) => {
                        return Err(e);
                    },
                };
                if a4.is_none() {
                    all = true;
                } else {
                    match parser.invalid_property() {
                        Ok(p) => {
                            return Ok(p);
                        },
                        Err(e) => {
                            return Err(e);
                        },
                    }
                }
            }
        } else if c1 == Some(97) && c2 == Some(108) {
            let a3 = match parser.next_unescaped() {
                Ok(c) => c,
                Err(e) => {
                    return Err(e);
                },
            };
            let a4 = match parser.next_unescaped() {
                Ok(c) => c,
                Err(e) => {
                    return Err(e);
                },
            };
            if a3 == Some(108) && a4.is_none() {
                all = true;
            } else {
                match parser.invalid_property() {
                    Ok(p) => {
                        return Ok(p);
                    },
                    Err(e) => {
                        return Err(e);
                    },
                }
            }
        } else {
            match parser.invalid_property() {
                Ok(p) => {
                    return Ok(p);
                },
                Err(e) => {
                    return Err(e);
                },
            }
        }
    }

    Ok(Property::Header(HeaderProperty { form, header, all }))
}

/// The main vocabulary as executable lookup.
fn lookup_property(first_char: u8, hash: u128) -> (r: Option<Property>)
    ensures
        r == spec_known_property(first_char, hash),
{
    match first_char {
        97 => match hash {
            0x6c63 => Some(Property::Acl),
            0x7365_7361_696c => Some(Property::Aliases),
            0x7374_6e65_6d68_6361_7474 => Some(Property::Attachments),
            _ => None,
        },
        98 => match hash {
            0x6363 => Some(Property::Bcc),
            0x6449_626f_6c => Some(Property::BlobId),
            0x6572_7574_6375_7274_5379_646f => Some(Property::BodyStructure),
            0x7365_756c_6156_7964_6f => Some(Property::BodyValues),
            _ => None,
        },
        99 => match hash {
            0x7365_6974_696c_6962_6170_61 => Some(Property::Capabilities),
            0x63 => Some(Property::Cc),
            0x7465_7372_6168 => Some(Property::Charset),
            0x6469 => Some(Property::Cid),
            _ => None,
        },
        100 => match hash {
            0x7375_7461_7453_7972_6576_696c_65 => Some(Property::DeliveryStatus),
            0x6e6f_6974_7069_7263_7365 => Some(Property::Description),
            0x6449_746e_6569_6c43_6563_6976_65 => Some(Property::DeviceClientId),
            0x6e6f_6974_6973_6f70_7369 => Some(Property::Disposition),
            0x7364_4962_6f6c_426e_73 => Some(Property::DsnBlobIds),
            _ => None,
        },
        101 => match hash {
            0x6c69_616d => Some(Property::Email),
            0x6449_6c69_616d => Some(Property::EmailId),
            0x7364_496c_6961_6d => Some(Property::EmailIds),
            0x6570_6f6c_6576_6e => Some(Property::Envelope),
            0x7365_7269_7078 => Some(Property::Expires),
            _ => None,
        },
        102 => match hash {
            0x6d6f_72 => Some(Property::From),
            0x6574_6144_6d6f_72 => Some(Property::FromDate),
            _ => None,
        },
        104 => match hash {
            0x746e_656d_6863_6174_7441_7361 => Some(Property::HasAttachment),
            0x7372_6564_6165 => Some(Property::Headers),
            0x7964_6f42_6c6d_74 => Some(Property::HtmlBody),
            0x6572_7574_616e_6769_536c_6d74 => Some(Property::HtmlSignature),
            _ => None,
        },
        105 => match hash {
            0x64 => Some(Property::Id),
            0x0064_4979_7469_746e_6564 => Some(Property::IdentityId),
            0x6f54_796c_7065_526e => Some(Property::InReplyTo),
            0x6576_6974_6341_73 => Some(Property::IsActive),
            0x6465_6c62_616e_4573 => Some(Property::IsEnabled),
            0x6465_6269_7263_7362_7553_73 => Some(Property::IsSubscribed),
            _ => None,
        },
        107 => match hash {
            0x7379_65 => Some(Property::Keys),
            0x7364_726f_7779_65 => Some(Property::Keywords),
            _ => None,
        },
        108 => match hash {
            0x6567_6175_676e_61 => Some(Property::Language),
            0x6e6f_6974_6163_6f => Some(Property::Location),
            _ => None,
        },
        109 => match hash {
            0x7364_4978_6f62_6c69_61 => Some(Property::MailboxIds),
            0x6574_656c_6544_7961 => Some(Property::MayDelete),
            0x0073_6449_626f_6c42_6e64 => Some(Property::MdnBlobIds),
            0x7372_6562_6d65 => Some(Property::Members),
            0x6449_6567_6173_7365 => Some(Property::MessageId),
            0x7374_6867_6952_79 => Some(Property::MyRights),
            _ => None,
        },
        110 => match hash {
            0x656d_61 => Some(Property::Name),
            _ => None,
        },
        112 => match hash {
            0x6449_746e_6572_61 => Some(Property::ParentId),
            0x6449_7472_61 => Some(Property::PartId),
            0x6572_7574_6369 => Some(Property::Picture),
            0x7765_6976_6572 => Some(Property::Preview),
            _ => None,
        },
        113 => match hash {
            0x6174_6f75 => Some(Property::Quota),
            _ => None,
        },
        114 => match hash {
            0x7441_6465_7669_6563_65 => Some(Property::ReceivedAt),
            0x7365_636e_6572_6566_65 => Some(Property::References),
            0x6f54_796c_7065 => Some(Property::ReplyTo),
            0x656c_6f => Some(Property::Role),
            _ => None,
        },
        115 => match hash {
            0x7465_7263_65 => Some(Property::Secret),
            0x7441_646e_65 => Some(Property::SendAt),
            0x7265_646e_65 => Some(Property::Sender),
            0x7441_746e_65 => Some(Property::SentAt),
            0x657a_69 => Some(Property::Size),
            0x7265_6472_4f74_726f => Some(Property::SortOrder),
            0x7463_656a_6275 => Some(Property::Subject),
            0x7374_7261_5062_7573 => Some(Property::SubParts),
            _ => None,
        },
        116 => match hash {
            0x7964_6f42_7478_65 => Some(Property::TextBody),
            0x6572_7574_616e_6769_5374_7865 => Some(Property::TextSignature),
            0x6449_6461_6572_68 => Some(Property::ThreadId),
            0x656e_6f7a_656d_69 => Some(Property::Timezone),
            0x6f => Some(Property::To),
            0x6574_6144_6f => Some(Property::ToDate),
            0x736c_6961_6d45_6c61_746f => Some(Property::TotalEmails),
            0x7364_6165_7268_546c_6174_6f => Some(Property::TotalThreads),
            0x6570_79 => Some(Property::Type),
            0x7365_7079 => Some(Property::Types),
            _ => None,
        },
        117 => match hash {
            0x7375_7461_7453_6f64_6e => Some(Property::UndoStatus),
            0x736c_6961_6d45_6461_6572_6e => Some(Property::UnreadEmails),
            0x7364_6165_7268_5464_6165_726e => Some(Property::UnreadThreads),
            0x6c72 => Some(Property::Url),
            _ => None,
        },
        118 => match hash {
            0x6564_6f43_6e6f_6974_6163_6966_6972_65 => Some(Property::VerificationCode),
            _ => None,
        },
        _ => None,
    }
}

/// The nested-object vocabulary as executable lookup.
fn lookup_object_property(first_char: u8, hash: u128) -> (r: Option<Property>)
    ensures
        r == spec_known_object_property(first_char, hash),
{
    match first_char {
        97 => match hash {
            0x7365_7373_6572_6464 => Some(Property::Addresses),
            0x6874_75 => Some(Property::Auth),
            _ => None,
        },
        98 => match hash {
            0x6449_626f_6c => Some(Property::BlobId),
            _ => None,
        },
        99 => match hash {
            0x7465_7372_6168 => Some(Property::Charset),
            0x6469 => Some(Property::Cid),
            _ => None,
        },
        100 => match hash {
            0x6e6f_6974_6973_6f70_7369 => Some(Property::Disposition),
            0x6465_7265_7669_6c65 => Some(Property::Delivered),
            0x6465_7961_6c70_7369 => Some(Property::Displayed),
            _ => None,
        },
        101 => match hash {
            0x6c69_616d => Some(Property::Email),
            _ => None,
        },
        104 => match hash {
            0x7372_6564_6165 => Some(Property::Headers),
            _ => None,
        },
        105 => match hash {
            0x656c_626f_7250_676e_6964_6f63_6e45_73 => Some(Property::IsEncodingProblem),
            0x6465_7461_636e_7572_5473 => Some(Property::IsTruncated),
            _ => None,
        },
        108 => match hash {
            0x6567_6175_676e_61 => Some(Property::Language),
            0x6e6f_6974_6163_6f => Some(Property::Location),
            _ => None,
        },
        109 => match hash {
            0x6d6f_7246_6c69_61 => Some(Property::MailFrom),
            0x736d_6574_4964_6165_5279_61 => Some(Property::MayReadItems),
            0x736d_6574_4964_6441_7961 => Some(Property::MayAddItems),
            0x736d_6574_4965_766f_6d65_5279_61 => Some(Property::MayRemoveItems),
            0x6e65_6553_7465_5379_61 => Some(Property::MaySetSeen),
            0x7364_726f_7779_654b_7465_5379_61 => Some(Property::MaySetKeywords),
            0x646c_6968_4365_7461_6572_4379_61 => Some(Property::MayCreateChild),
            0x656d_616e_6552_7961 => Some(Property::MayRename),
            0x6574_656c_6544_7961 => Some(Property::MayDelete),
            0x7469_6d62_7553_7961 => Some(Property::MaySubmit),
            _ => None,
        },
        110 => match hash {
            0x656d_61 => Some(Property::Name),
            _ => None,
        },
        112 => match hash {
            0x6449_7472_61 => Some(Property::PartId),
            0x0068_6436_3532 => Some(Property::P256dh),
            0x7372_6574_656d_6172_61 => Some(Property::Parameters),
            _ => None,
        },
        114 => match hash {
            0x6f54_7470_63 => Some(Property::RcptTo),
            _ => None,
        },
        115 => match hash {
            0x657a_69 => Some(Property::Size),
            0x7374_7261_5062_75 => Some(Property::SubParts),
            0x796c_7065_5270_746d => Some(Property::SmtpReply),
            _ => None,
        },
        116 => match hash {
            0x6570_79 => Some(Property::Type),
            _ => None,
        },
        118 => match hash {
            0x6575_6c61 => Some(Property::Value),
            _ => None,
        },
        _ => None,
    }
}

/// The form vocabulary as executable lookup.
fn lookup_form(hash: u128) -> (r: Option<HeaderForm>)
    ensures
        r == spec_known_form(hash),
{
    if hash == 0x7478_6554 {
        Some(HeaderForm::Text)
    } else if hash == 0x7365_7373_6572_6464_41 {
        Some(HeaderForm::Addresses)
    } else if hash == 0x7365_7373_6572_6464_4164_6570_756f_7247 {
        Some(HeaderForm::GroupedAddresses)
    } else if hash == 0x7364_4965_6761_7373_654d {
        Some(HeaderForm::MessageIds)
    } else if hash == 0x6574_6144 {
        Some(HeaderForm::Date)
    } else if hash == 0x734c_5255 {
        Some(HeaderForm::URLs)
    } else if hash == 0x7761_52 {
        Some(HeaderForm::Raw)
    } else {
        None
    }
}

impl Property {
    /// Parses a property name: folds the characters into the packed pair
    /// and looks it up, branching into the `header:` family at its colon.
    pub fn parse(parser: &mut Parser) -> (r: Result<Property, ParseError>)
        requires
            old(parser).wf(),
        ensures
            final(parser).wf(),
            final(parser).bytes == old(parser).bytes,
            match spec_scan_name(old(parser).bytes@, old(parser).pos as int, 0, 0, 0) {
                NameScan::Known { first_char, hash, end } => match spec_known_property(
                    first_char,
                    hash,
                ) {
                    Some(p) => r == Ok::<Property, ParseError>(p) && final(parser).pos == end,
                    None => (r matches Ok(p) ==> p is _T),
                },
                NameScan::Header { at } => match spec_parse_header(old(parser).bytes@, at) {
                    HeaderScan::Done { raw, form, all, end } => r matches Ok(p) && (p matches
                    Property::Header(hp) && hp.header@ == spec_lossy(raw) && hp.form == form
                        && hp.all == all) && final(parser).pos == end,
                    HeaderScan::Bad => (r matches Ok(p) ==> p is _T),
                    HeaderScan::Unterminated => r is Err,
                },
                NameScan::Bad => (r matches Ok(p) ==> p is _T),
                NameScan::Unterminated => r is Err,
            },
    {
        let mut first_char: u8 = 0;
        let mut hash: u128 = 0;
        let mut shift: u32 = 0;
        let ghost from = parser.pos as int;

        loop
            invariant_except_break
                spec_scan_name(parser.bytes@, parser.pos as int, first_char, hash, shift as nat)
                    == spec_scan_name(parser.bytes@, from, 0, 0, 0),
            invariant
                parser.wf(),
                parser.bytes == old(parser).bytes,
                parser.pos_marker == old(parser).pos_marker,
                from == old(parser).pos as int,
            ensures
                parser.wf(),
                parser.bytes == old(parser).bytes,
                parser.pos_marker == old(parser).pos_marker,
                spec_scan_name(parser.bytes@, from, 0, 0, 0) == (NameScan::Known {
                    first_char,
                    hash,
                    end: parser.pos as int,
                }),
            decreases parser.bytes@.len() - parser.pos,
        {
            match parser.next_unescaped() {
                Err(e) => {
                    proof {
                        assert(spec_scan_name(parser.bytes@, from, 0, 0, 0) is Unterminated);
                    }
                    return Err(e);
                },
                Ok(None) => {
                    break ;
                },
                Ok(Some(ch)) => {
                    if (65 <= ch && ch <= 90) || (97 <= ch && ch <= 122) {
                        if first_char != 0 {
                            if shift < 128 {
                                hash = hash | ((ch as u128) << shift);
                                shift = shift + 8;
                            } else {
                                proof {
                                    assert(spec_scan_name(parser.bytes@, from, 0, 0, 0) is Bad);
                                }
                                return parser.invalid_property();
                            }
                        } else {
                            first_char = ch;
                        }
                    } else if ch == 58 && first_char == 104 && hash == 0x7265_6461_65 {
                        proof {
                            assert(spec_scan_name(parser.bytes@, from, 0, 0, 0)
                                == (NameScan::Header { at: parser.pos as int }));
                        }
                        return parse_header_property(parser);
                    } else {
                        proof {
                            assert(spec_scan_name(parser.bytes@, from, 0, 0, 0) is Bad);
                        }
                        return parser.invalid_property();
                    }
                },
            }
        }

        parse_property(parser, first_char, hash)
    }
}

impl ObjectProperty {
    /// Parses a nested-object property name against its own vocabulary.
    pub fn parse(parser: &mut Parser) -> (r: Result<ObjectProperty, ParseError>)
        requires
            old(parser).wf(),
        ensures
            final(parser).wf(),
            final(parser).bytes == old(parser).bytes,
            match spec_scan_name(old(parser).bytes@, old(parser).pos as int, 0, 0, 0) {
                NameScan::Known { first_char, hash, end } => match spec_known_object_property(
                    first_char,
                    hash,
                ) {
                    Some(p) => r == Ok::<ObjectProperty, ParseError>(ObjectProperty(p))
                        && final(parser).pos == end,
                    None => (r matches Ok(p) ==> p.0 is _T),
                },
                NameScan::Header { at } => match spec_parse_header(old(parser).bytes@, at) {
                    HeaderScan::Done { raw, form, all, end } => r matches Ok(p) && (p.0 matches
                    Property::Header(hp) && hp.header@ == spec_lossy(raw) && hp.form == form
                        && hp.all == all) && final(parser).pos == end,
                    HeaderScan::Bad => (r matches Ok(p) ==> p.0 is _T),
                    HeaderScan::Unterminated => r is Err,
                },
                NameScan::Bad => (r matches Ok(p) ==> p.0 is _T),
                NameScan::Unterminated => r is Err,
            },
    {
        let mut first_char: u8 = 0;
        let mut hash: u128 = 0;
        let mut shift: u32 = 0;
        let ghost from = parser.pos as int;

        loop
            invariant_except_break
                spec_scan_name(parser.bytes@, parser.pos as int, first_char, hash, shift as nat)
                    == spec_scan_name(parser.bytes@, from, 0, 0, 0),
            invariant
                parser.wf(),
                parser.bytes == old(parser).bytes,
                parser.pos_marker == old(parser).pos_marker,
                from == old(parser).pos as int,
            ensures
                parser.wf(),
                parser.bytes == old(parser).bytes,
                parser.pos_marker == old(parser).pos_marker,
                spec_scan_name(parser.bytes@, from, 0, 0, 0) == (NameScan::Known {
                    first_char,
                    hash,
                    end: parser.pos as int,
                }),
            decreases parser.bytes@.len() - parser.pos,
        {
            match parser.next_unescaped() {
                Err(e) => {
                    proof {
                        assert(spec_scan_name(parser.bytes@, from, 0, 0, 0) is Unterminated);
                    }
                    return Err(e);
                },
                Ok(None) => {
                    break ;
                },
                Ok(Some(ch)) => {
                    if (65 <= ch && ch <= 90) || (97 <= ch && ch <= 122) {
                        if first_char != 0 {
                            if shift < 128 {
                                hash = hash | ((ch as u128) << shift);
                                shift = shift + 8;
                            } else {
                                proof {
                                    assert(spec_scan_name(parser.bytes@, from, 0, 0, 0) is Bad);
                                }
                                match parser.invalid_property() {
                                    Ok(p) => {
                                        return Ok(ObjectProperty(p));
                                    },
                                    Err(e) => {
                                        return Err(e);
                                    },
                                }
                            }
                        } else {
                            first_char = ch;
                        }
                    } else if ch == 58 && first_char == 104 && hash == 0x7265_6461_65 {
                        proof {
                            assert(spec_scan_name(parser.bytes@, from, 0, 0, 0)
                                == (NameScan::Header { at: parser.pos as int }));
                        }
                        match parse_header_property(parser) {
                            Ok(p) => {
                                return Ok(ObjectProperty(p));
                            },
                            Err(e) => {
                                return Err(e);
                            },
                        }
                    } else {
                        proof {
                            assert(spec_scan_name(parser.bytes@, from, 0, 0, 0) is Bad);
                        }
                        match parser.invalid_property() {
                            Ok(p) => {
                                return Ok(ObjectProperty(p));
                            },
                            Err(e) => {
                                return Err(e);
                            },
                        }
                    }
                },
            }
        }

        match lookup_object_property(first_char, hash) {
            Some(q) => Ok(ObjectProperty(q)),
            None => match parser.invalid_property() {
                Ok(p) => Ok(ObjectProperty(p)),
                Err(e) => Err(e),
            },
        }
    }
}


/// Outcome of scanning a `set` property name, which may carry a leading
/// `#` reference marker and a `/` patch path.
#[verifier::ext_equal]
pub ghost enum SetScan {
    /// The string closed on a plain name.
    Plain { first_char: u8, hash: u128, end: int, is_ref: bool },
    /// A `/` started a patch path at `at`.
    Patch { first_char: u8, hash: u128, at: int },
    /// A `:` followed the prefix `header` without a reference marker.
    Header { at: int },
    /// A byte outside the vocabulary, a name too long to pack, or a
    /// misplaced marker.
    Bad,
    /// The input ended inside the string.
    Unterminated,
}

/// The scan of a `set` property name from `pos`.
pub open spec fn spec_scan_set_name(
    bytes: Seq<u8>,
    pos: int,
    first: u8,
    hash: u128,
    shift: nat,
    is_ref: bool,
) -> SetScan
    decreases bytes.len() - pos,
{
    if pos < 0 || pos >= bytes.len() {
        SetScan::Unterminated
    } else if bytes[pos] == 34 {
        SetScan::Plain { first_char: first, hash, end: pos + 1, is_ref }
    } else if bytes[pos] == 92 && pos + 1 >= bytes.len() {
        SetScan::Unterminated
    } else {
        let ch = if bytes[pos] == 92 {
            bytes[pos + 1]
        } else {
            bytes[pos]
        };
        let p = if bytes[pos] == 92 {
            pos + 2
        } else {
            pos + 1
        };
        if (65 <= ch <= 90) || (97 <= ch <= 122) {
            if first != 0 {
                if shift < 128 {
                    spec_scan_set_name(bytes, p, first, hash | ((ch as u128) << shift), shift + 8, is_ref)
                } else {
                    SetScan::Bad
                }
            } else {
                spec_scan_set_name(bytes, p, ch, hash, shift, is_ref)
            }
        } else if ch == 35 && first == 0 && !is_ref {
            spec_scan_set_name(bytes, p, first, hash, shift, true)
        } else if ch == 47 && !is_ref {
            SetScan::Patch { first_char: first, hash, at: p }
        } else if ch == 58 && first == 104 && hash == 0x7265_6461_65 && !is_ref {
            SetScan::Header { at: p }
        } else {
            SetScan::Bad
        }
    }
}

/// One raw patch segment from `pos`: its unescaped content, the cursor
/// after its terminator, and whether a `/` (rather than the closing quote)
/// ended it; `None` when the input ends inside the string.
pub open spec fn spec_scan_segment(bytes: Seq<u8>, pos: int) -> Option<(Seq<u8>, int, bool)>
    decreases bytes.len() - pos,
{
    if pos < 0 || pos >= bytes.len() {
        None
    } else if bytes[pos] == 34 {
        Some((Seq::empty(), pos + 1, false))
    } else if bytes[pos] == 92 && pos + 1 >= bytes.len() {
        None
    } else {
        let ch = if bytes[pos] == 92 {
            bytes[pos + 1]
        } else {
            bytes[pos]
        };
        let p = if bytes[pos] == 92 {
            pos + 2
        } else {
            pos + 1
        };
        if ch == 47 {
            Some((Seq::empty(), p, true))
        } else {
            match spec_scan_segment(bytes, p) {
                Some((c, e, m)) => Some((seq![ch] + c, e, m)),
                None => None,
            }
        }
    }
}

/// Whether the property supports a `/` patch path under `set`.
pub open spec fn spec_patchable(p: Property) -> bool {
    p == Property::MailboxIds || p == Property::Members || p == Property::Keywords || p
        == Property::Acl || p == Property::Aliases
}

impl SetProperty {
    /// Parses a `set` property name: an optional leading `#` marks a
    /// back-reference, and a `/` introduces a patch path for the properties
    /// that take one. The patch segments are kept as their raw text; typed
    /// decoding of identifiers, keywords and rights belongs to the JMAP
    /// value layer outside this crate.
    pub fn parse(parser: &mut Parser) -> (r: Result<SetProperty, ParseError>)
        requires
            old(parser).wf(),
        ensures
            final(parser).wf(),
            final(parser).bytes == old(parser).bytes,
            match spec_scan_set_name(old(parser).bytes@, old(parser).pos as int, 0, 0, 0, false) {
                SetScan::Plain { first_char, hash, end, is_ref } => match spec_known_property(
                    first_char,
                    hash,
                ) {
                    Some(p) => r matches Ok(sp) && sp.property == p && sp.is_ref == is_ref
                        && sp.patch@.len() == 0 && final(parser).pos == end,
                    None => (r matches Ok(sp) ==> sp.property is _T && !sp.is_ref
                        && sp.patch@.len() == 0),
                },
                SetScan::Patch { first_char, hash, at } => match spec_known_property(
                    first_char,
                    hash,
                ) {
                    Some(p) => if spec_patchable(p) {
                        (r matches Ok(sp) ==> !sp.is_ref && ((sp.property == p && sp.patch@.len()
                            >= 1) || sp.property is _T))
                    } else {
                        (r matches Ok(sp) ==> sp.property is _T && !sp.is_ref)
                    },
                    None => (r matches Ok(sp) ==> sp.property is _T && !sp.is_ref),
                },
                SetScan::Header { at } => match spec_parse_header(old(parser).bytes@, at) {
                    HeaderScan::Done { raw, form, all, end } => r matches Ok(sp) && (sp.property
                        matches Property::Header(hp) && hp.header@ == spec_lossy(raw) && hp.form
                        == form && hp.all == all) && !sp.is_ref && sp.patch@.len() == 0
                        && final(parser).pos == end,
                    HeaderScan::Bad => (r matches Ok(sp) ==> sp.property is _T && !sp.is_ref),
                    HeaderScan::Unterminated => r is Err,
                },
                SetScan::Bad => (r matches Ok(sp) ==> sp.property is _T && !sp.is_ref),
                SetScan::Unterminated => r is Err,
            },
    {
        let mut first_char: u8 = 0;
        let mut hash: u128 = 0;
        let mut shift: u32 = 0;
        let mut is_ref = false;
        let mut is_patch = false;
        let ghost from = parser.pos as int;

        loop
            invariant_except_break
                spec_scan_set_name(
                    parser.bytes@,
                    parser.pos as int,
                    first_char,
                    hash,
                    shift as nat,
                    is_ref,
                ) == spec_scan_set_name(parser.bytes@, from, 0, 0, 0, false),
                !is_patch,
            invariant
                parser.wf(),
                parser.bytes == old(parser).bytes,
                parser.pos_marker == old(parser).pos_marker,
                from == old(parser).pos as int,
            ensures
                parser.wf(),
                parser.bytes == old(parser).bytes,
                parser.pos_marker == old(parser).pos_marker,
                from == old(parser).pos as int,
                if is_patch {
                    spec_scan_set_name(parser.bytes@, from, 0, 0, 0, false) == (SetScan::Patch {
                        first_char,
                        hash,
                        at: parser.pos as int,
                    })
                } else {
                    spec_scan_set_name(parser.bytes@, from, 0, 0, 0, false) == (SetScan::Plain {
                        first_char,
                        hash,
                        end: parser.pos as int,
                        is_ref,
                    })
                },
            decreases parser.bytes@.len() - parser.pos,
        {
            match parser.next_unescaped() {
                Err(e) => {
                    proof {
                        assert(spec_scan_set_name(parser.bytes@, from, 0, 0, 0, false)
                            is Unterminated);
                    }
                    return Err(e);
                },
                Ok(None) => {
                    break ;
                },
                Ok(Some(ch)) => {
                    if (65 <= ch && ch <= 90) || (97 <= ch && ch <= 122) {
                        if first_char != 0 {
                            if shift < 128 {
                                hash = hash | ((ch as u128) << shift);
                                shift = shift + 8;
                            } else {
                                proof {
                                    assert(spec_scan_set_name(parser.bytes@, from, 0, 0, 0, false)
                                        is Bad);
                                }
                                match parser.invalid_property() {
                                    Ok(p) => {
                                        return Ok(
                                            SetProperty {
                                                property: p,
                                                patch: Vec::new(),
                                                is_ref: false,
                                            },
                                        );
                                    },
                                    Err(e) => {
                                        return Err(e);
                                    },
                                }
                            }
                        } else {
                            first_char = ch;
                        }
                    } else if ch == 35 && first_char == 0 && !is_ref {
                        is_ref = true;
                    } else if ch == 47 && !is_ref {
                        is_patch = true;
                        break ;
                    } else if ch == 58 && first_char == 104 && hash == 0x7265_6461_65 && !is_ref {
                        proof {
                            assert(spec_scan_set_name(parser.bytes@, from, 0, 0, 0, false)
                                == (SetScan::Header { at: parser.pos as int }));
                        }
                        match parse_header_property(parser) {
                            Ok(p) => {
                                return Ok(
                                    SetProperty { property: p, patch: Vec::new(), is_ref: false },
                                );
                            },
                            Err(e) => {
                                return Err(e);
                            },
                        }
                    } else {
                        proof {
                            assert(spec_scan_set_name(parser.bytes@, from, 0, 0, 0, false)
                                is Bad);
                        }
                        match parser.invalid_property() {
                            Ok(p) => {
                                return Ok(
                                    SetProperty { property: p, patch: Vec::new(), is_ref: false },
                                );
                            },
                            Err(e) => {
                                return Err(e);
                            },
                        }
                    }
                },
            }
        }

        let mut property = match lookup_property(first_char, hash) {
            Some(p) => p,
            None => {
                match parser.invalid_property() {
                    Ok(p) => {
                        return Ok(SetProperty { property: p, patch: Vec::new(), is_ref: false });
                    },
                    Err(e) => {
                        return Err(e);
                    },
                }
            },
        };
        let mut patch: Vec<String> = Vec::new();

        if is_patch {
            let patchable = match &property {
                Property::MailboxIds | Property::Members | Property::Keywords | Property::Acl
                | Property::Aliases => true,
                _ => false,
            };
            if patchable {
                let seg = read_segment(parser);
                match seg {
                    Ok((text, more)) => {
                        if text.as_str().is_empty() {
                            match parser.invalid_property() {
                                Ok(p) => {
                                    return Ok(
                                        SetProperty {
                                            property: p,
                                            patch: Vec::new(),
                                            is_ref: false,
                                        },
                                    );
                                },
                                Err(e) => {
                                    return Err(e);
                                },
                            }
                        }
                        patch.push(text);
                        if more {
                            match read_segment(parser) {
                                Ok((rest, _)) => {
                                    patch.push(rest);
                                },
                                Err(e) => {
                                    return Err(e);
                                },
                            }
                        }
                    },
                    Err(e) => {
                        return Err(e);
                    },
                }
            } else {
                match parser.invalid_property() {
                    Ok(p) => {
                        property = p;
                    },
                    Err(e) => {
                        return Err(e);
                    },
                }
                return Ok(SetProperty { property, patch: Vec::new(), is_ref: false });
            }
            return Ok(SetProperty { property, patch, is_ref: false });
        }

        Ok(SetProperty { property, patch, is_ref })
    }
}

/// Reads one raw patch segment: the unescaped text up to the next `/` or
/// the string's end, and whether a `/` stopped it.
fn read_segment(parser: &mut Parser) -> (r: Result<(String, bool), ParseError>)
    requires
        old(parser).wf(),
    ensures
        final(parser).wf(),
        final(parser).bytes == old(parser).bytes,
        match spec_scan_segment(old(parser).bytes@, old(parser).pos as int) {
            Some(seg) => r matches Ok(p) && p.0@ == spec_lossy(seg.0) && p.1 == seg.2
                && final(parser).pos == seg.1,
            None => r is Err,
        },
{
    let mut out: Vec<u8> = Vec::new();
    let ghost from = parser.pos as int;
    loop
        invariant_except_break
            (match spec_scan_segment(parser.bytes@, parser.pos as int) {
                Some(seg) => spec_scan_segment(parser.bytes@, from) == Some(
                    (out@ + seg.0, seg.1, seg.2),
                ),
                None => spec_scan_segment(parser.bytes@, from) is None,
            }),
        invariant
            parser.wf(),
            parser.bytes == old(parser).bytes,
            from == old(parser).pos as int,
        decreases parser.bytes@.len() - parser.pos,
    {
        match parser.next_unescaped() {
            Err(e) => {
                proof {
                    assert(spec_scan_segment(parser.bytes@, from) is None);
                }
                return Err(e);
            },
            Ok(None) => {
                proof {
                    assert(spec_scan_segment(parser.bytes@, from) matches Some(seg) && seg.0
                        =~= out@);
                }
                return Ok((lossy_string(out.as_slice()), false));
            },
            Ok(Some(ch)) => {
                if ch == 47 {
                    proof {
                        assert(spec_scan_segment(parser.bytes@, from) matches Some(seg) && seg.0
                            =~= out@);
                    }
                    return Ok((lossy_string(out.as_slice()), true));
                }
                proof {
                    assert((match spec_scan_segment(parser.bytes@, parser.pos as int) {
                        Some(seg) => out@.push(ch) + seg.0 =~= out@ + (seq![ch] + seg.0),
                        None => true,
                    }));
                }
                out.push(ch);
            },
        }
    }
}

} // verus!
