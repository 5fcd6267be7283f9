use vstd::prelude::*;

verus! {

/// A file to attach to a message: the raw bytes and the filename shown
/// beside them.
pub struct Attachment {
    pub file: Vec<u8>,
    pub filename: String,
}

/// The visual style of an interactive button.
#[derive(Clone, Copy, Debug, PartialEq, Eq, Structural)]
pub enum ButtonStyle {
    Primary,
    Secondary,
    Success,
    Danger,
}

/// An interactive button: its identifier, visual style and label.
pub struct Button {
    pub custom_id: String,
    pub style: ButtonStyle,
    pub label: String,
}

/// Everything a formatted message holds before it is handed to a chat
/// transport: a content string, attachments, button descriptors and a
/// visibility flag.
pub struct MessageBuilder {
    pub content: String,
    pub files: Vec<Attachment>,
    pub buttons: Vec<Button>,
    pub ephemeral: bool,
}

impl Default for MessageBuilder {
    /// An empty, visible message with no attachments and no buttons.
    fn default() -> (r: MessageBuilder)
        ensures
            r.content@ == Seq::<char>::empty(),
            r.files@ == Seq::<Attachment>::empty(),
            r.buttons@ == Seq::<Button>::empty(),
            !r.ephemeral,
    {
        MessageBuilder { content: String::new(), files: Vec::new(), buttons: Vec::new(), ephemeral: false }
    }
}

impl MessageBuilder {
    /// A visible message holding this content, with no attachments and no
    /// buttons.
    pub fn new(content: &str) -> (r: MessageBuilder)
        ensures
            r.content@ == content@,
            r.files@ == Seq::<Attachment>::empty(),
            r.buttons@ == Seq::<Button>::empty(),
            !r.ephemeral,
    {
        MessageBuilder {
            content: content.to_owned(),
            files: Vec::new(),
            buttons: Vec::new(),
            ephemeral: false,
        }
    }

    /// Replaces the content string and keeps everything else.
    pub fn content(self, content: &str) -> (r: MessageBuilder)
        ensures
            r.content@ == content@,
            r.files == self.files,
            r.buttons == self.buttons,
            r.ephemeral == self.ephemeral,
    {
        MessageBuilder { content: content.to_owned(), ..self }
    }

    /// Replaces the attachments and keeps everything else.
    pub fn files(self, files: Vec<Attachment>) -> (r: MessageBuilder)
        ensures
            r.files == files,
            r.content == self.content,
            r.buttons == self.buttons,
            r.ephemeral == self.ephemeral,
    {
        MessageBuilder { files, ..self }
    }

    /// Replaces the button descriptors and keeps everything else.
    pub fn buttons(self, buttons: Vec<Button>) -> (r: MessageBuilder)
        ensures
            r.buttons == buttons,
            r.content == self.content,
            r.files == self.files,
            r.ephemeral == self.ephemeral,
    {
        MessageBuilder { buttons, ..self }
    }

    /// Replaces the visibility flag and keeps everything else.
    pub fn ephemeral(self, ephemeral: bool) -> (r: MessageBuilder)
        ensures
            r.ephemeral == ephemeral,
            r.content == self.content,
            r.files == self.files,
            r.buttons == self.buttons,
    {
        MessageBuilder { ephemeral, ..self }
    }
}

} // verus!
