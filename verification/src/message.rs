use vstd::prelude::*;

verus! {

/// The persisted description of a rich embed message: every field the bot
/// may fill in when it builds the outgoing message. Plain data; the chat
/// client turns it into an API call.
#[derive(Debug)]
pub struct EmbedMessage {
    pub author_icon_url: Option<String>,
    pub author_name: Option<String>,
    pub author_url: Option<String>,
    pub colour: (u8, u8, u8),
    pub description: Option<String>,
    pub fields: Option<Vec<(String, String, bool)>>,
    pub footer_text: Option<String>,
    pub image_url: Option<String>,
    pub thumbnail_url: Option<String>,
    pub timestamp: bool,
    pub title: Option<String>,
    pub title_url: Option<String>,
}

/// The mathematical value of an [`EmbedMessage`]: each string replaced by
/// its character sequence.
pub ghost struct EmbedMessageV {
    pub author_icon_url: Option<Seq<char>>,
    pub author_name: Option<Seq<char>>,
    pub author_url: Option<Seq<char>>,
    pub colour: (u8, u8, u8),
    pub description: Option<Seq<char>>,
    pub fields: Option<Seq<(Seq<char>, Seq<char>, bool)>>,
    pub footer_text: Option<Seq<char>>,
    pub image_url: Option<Seq<char>>,
    pub thumbnail_url: Option<Seq<char>>,
    pub timestamp: bool,
    pub title: Option<Seq<char>>,
    pub title_url: Option<Seq<char>>,
}

impl DeepView for EmbedMessage {
    type V = EmbedMessageV;

    open spec fn deep_view(&self) -> EmbedMessageV {
        EmbedMessageV {
            author_icon_url: self.author_icon_url.deep_view(),
            author_name: self.author_name.deep_view(),
            author_url: self.author_url.deep_view(),
            colour: self.colour,
            description: self.description.deep_view(),
            fields: self.fields.deep_view(),
            footer_text: self.footer_text.deep_view(),
            image_url: self.image_url.deep_view(),
            thumbnail_url: self.thumbnail_url.deep_view(),
            timestamp: self.timestamp,
            title: self.title.deep_view(),
            title_url: self.title_url.deep_view(),
        }
    }
}

/// The content of a message a task sends: either plain text or a rich
/// embed.
#[derive(Debug)]
pub enum MessageType {
    Plain { content: String },
    Embed(Box<EmbedMessage>),
}

/// The mathematical value of a [`MessageType`].
pub ghost enum MessageTypeV {
    Plain { content: Seq<char> },
    Embed(EmbedMessageV),
}

impl DeepView for MessageType {
    type V = MessageTypeV;

    open spec fn deep_view(&self) -> MessageTypeV {
        match self {
            MessageType::Plain { content } => MessageTypeV::Plain { content: content.deep_view() },
            MessageType::Embed(e) => MessageTypeV::Embed(e.deep_view()),
        }
    }
}

impl MessageType {
    /// Whether this message is a rich embed.
    pub fn is_embed(&self) -> (r: bool)
        ensures
            r == (self.deep_view() is Embed),
    {
        matches!(self, MessageType::Embed { .. })
    }
}

} // verus!
