use vstd::prelude::*;
use crate::message::{EmbedMessage, MessageType, MessageTypeV};

verus! {

/// One external side effect a task can ask for: send a message (optionally
/// with a file attached) to a channel, or change the bot's own name and
/// avatar. Pure data; no scheduling semantics.
#[derive(Debug)]
pub enum Task {
    SendMessage { send_to: u64, message: MessageType, upload_file: Option<String> },
    UpdateAppearance { new_name: String, new_icon_filename: String },
}

/// The mathematical value of a [`Task`].
pub ghost enum TaskV {
    SendMessage { send_to: u64, message: MessageTypeV, upload_file: Option<Seq<char>> },
    UpdateAppearance { new_name: Seq<char>, new_icon_filename: Seq<char> },
}

impl DeepView for Task {
    type V = TaskV;

    open spec fn deep_view(&self) -> TaskV {
        match self {
            Task::SendMessage { send_to, message, upload_file } => TaskV::SendMessage {
                send_to: *send_to,
                message: message.deep_view(),
                upload_file: upload_file.deep_view(),
            },
            Task::UpdateAppearance { new_name, new_icon_filename } => TaskV::UpdateAppearance {
                new_name: new_name.deep_view(),
                new_icon_filename: new_icon_filename.deep_view(),
            },
        }
    }
}

/// A file path under the files directory, as the attachment step of a send
/// builds it: the directory, a separator when one is missing, then the file
/// name.
pub open spec fn spec_attachment_path(dir: Seq<char>, file: Seq<char>) -> Seq<char> {
    if dir.len() == 0 {
        file
    } else if dir.last() == '/' {
        dir + file
    } else {
        dir + seq!['/'] + file
    }
}

/// `dir` with every trailing separator removed.
pub open spec fn spec_trim_trailing_slashes(dir: Seq<char>) -> Seq<char>
    decreases dir.len(),
{
    if dir.len() > 0 && dir.last() == '/' {
        spec_trim_trailing_slashes(dir.drop_last())
    } else {
        dir
    }
}

/// A file path under the files directory, as the appearance-update step
/// builds it: trailing separators trimmed, then exactly one separator, then
/// the file name.
pub open spec fn spec_avatar_path(dir: Seq<char>, file: Seq<char>) -> Seq<char> {
    spec_trim_trailing_slashes(dir) + seq!['/'] + file
}

/// Join the files directory and an attachment file name.
pub fn attachment_path(dir: &str, file: &str) -> (r: String)
    ensures
        r@ == spec_attachment_path(dir@, file@),
{
    proof {
        reveal_strlit("/");
    }
    let n = dir.unicode_len();
    if n == 0 {
        file.to_owned()
    } else if dir.get_char(n - 1) == '/' {
        let mut s = dir.to_owned();
        s.append(file);
        proof {
            assert(dir@.last() == '/');
        }
        s
    } else {
        let mut s = dir.to_owned();
        s.append("/");
        s.append(file);
        proof {
            assert("/"@ =~= seq!['/']);
            assert(s@ =~= dir@ + seq!['/'] + file@);
        }
        s
    }
}

/// Join the files directory and the avatar file name.
pub fn avatar_path(dir: &str, file: &str) -> (r: String)
    ensures
        r@ == spec_avatar_path(dir@, file@),
{
    proof {
        reveal_strlit("/");
    }
    let mut end = dir.unicode_len();
    proof {
        assert(dir@.take(end as int) =~= dir@);
    }
    while end > 0 && dir.get_char(end - 1) == '/'
        invariant
            end <= dir@.len(),
            spec_trim_trailing_slashes(dir@) == spec_trim_trailing_slashes(dir@.take(end as int)),
        decreases end,
    {
        proof {
            assert(dir@.take(end as int).last() == '/');
            assert(dir@.take(end as int).drop_last() =~= dir@.take(end as int - 1));
        }
        end = end - 1;
    }
    proof {
        if end > 0 {
            assert(dir@.take(end as int).last() != '/');
        }
        assert(spec_trim_trailing_slashes(dir@.take(end as int)) == dir@.take(end as int));
    }
    let trimmed = dir.substring_char(0, end);
    let mut s = trimmed.to_owned();
    s.append("/");
    s.append(file);
    proof {
        assert("/"@ =~= seq!['/']);
        assert(dir@.subrange(0, end as int) =~= dir@.take(end as int));
        assert(s@ =~= spec_trim_trailing_slashes(dir@) + seq!['/'] + file@);
    }
    s
}

/// Everything the chat client must do to carry out a send-message action:
/// which channel, what content, whether the embed footer needs the bot's
/// avatar URL fetched first, and the full path of the attachment if there is
/// one.
#[derive(Debug)]
pub struct SendPlan {
    pub channel: u64,
    pub message: MessageType,
    pub needs_footer_icon: bool,
    pub attachment: Option<String>,
}

/// Everything the chat client must do to carry out one action. The decision
/// of what to call is made here, verified; the calls themselves are remote
/// and live outside the library.
#[derive(Debug)]
pub enum ActionPlan {
    Send(SendPlan),
    UpdateAppearance { new_name: String, avatar_path: String },
}

impl Task {
    /// Lay out the external calls this action asks for, resolving file
    /// names against the configured files directory.
    pub fn plan(&self, files_dir: &str) -> (r: ActionPlan)
        ensures
            match self.deep_view() {
                TaskV::SendMessage { send_to, message, upload_file } => {
                    &&& r is Send
                    &&& r->Send_0.channel == send_to
                    &&& r->Send_0.message.deep_view() == message
                    &&& r->Send_0.needs_footer_icon == (message is Embed)
                    &&& r->Send_0.attachment.deep_view() == match upload_file {
                        Some(f) => Some(spec_attachment_path(files_dir@, f)),
                        None => None::<Seq<char>>,
                    }
                },
                TaskV::UpdateAppearance { new_name, new_icon_filename } => {
                    &&& r is UpdateAppearance
                    &&& r->new_name@ == new_name
                    &&& r->avatar_path@ == spec_avatar_path(files_dir@, new_icon_filename)
                },
            },
    {
        match self {
            Task::SendMessage { send_to, message, upload_file } => {
                let needs_footer_icon = message.is_embed();
                let attachment = match upload_file {
                    Some(f) => Some(attachment_path(files_dir, f.as_str())),
                    None => None,
                };
                ActionPlan::Send(SendPlan {
                    channel: *send_to,
                    message: message.clone(),
                    needs_footer_icon,
                    attachment,
                })
            },
            Task::UpdateAppearance { new_name, new_icon_filename } => {
                ActionPlan::UpdateAppearance {
                    new_name: new_name.clone(),
                    avatar_path: avatar_path(files_dir, new_icon_filename.as_str()),
                }
            },
        }
    }

    /// The short tag each action kind shows in a task listing.
    pub fn list_fmt(&self) -> (r: &'static str)
        ensures
            r@ == if self.deep_view() is SendMessage { "   SEND"@ } else { "UPDATE"@ },
    {
        match self {
            Task::SendMessage { .. } => "   SEND",
            Task::UpdateAppearance { .. } => "UPDATE",
        }
    }
}

impl Clone for EmbedMessage {
    /// Cloning keeps the mathematical value.
    fn clone(&self) -> (r: Self)
        ensures
            r.deep_view() == self.deep_view(),
    {
        let fields = match &self.fields {
            None => None,
            Some(v) => {
                let mut out: Vec<(String, String, bool)> = Vec::new();
                let mut i: usize = 0;
                while i < v.len()
                    invariant
                        i <= v.len(),
                        out@.len() == i,
                        forall|j: int| 0 <= j < i ==> out@[j].deep_view() == v@[j].deep_view(),
                    decreases v.len() - i,
                {
                    let (a, b, c) = &v[i];
                    out.push((a.clone(), b.clone(), *c));
                    i = i + 1;
                }
                proof {
                    assert(out.deep_view() =~= v.deep_view());
                }
                Some(out)
            },
        };
        let r = EmbedMessage {
            author_icon_url: clone_opt_string(&self.author_icon_url),
            author_name: clone_opt_string(&self.author_name),
            author_url: clone_opt_string(&self.author_url),
            colour: self.colour,
            description: clone_opt_string(&self.description),
            fields,
            footer_text: clone_opt_string(&self.footer_text),
            image_url: clone_opt_string(&self.image_url),
            thumbnail_url: clone_opt_string(&self.thumbnail_url),
            timestamp: self.timestamp,
            title: clone_opt_string(&self.title),
            title_url: clone_opt_string(&self.title_url),
        };
        r
    }
}

/// Copy an optional string, keeping its mathematical value.
pub fn clone_opt_string(o: &Option<String>) -> (r: Option<String>)
    ensures
        r.deep_view() == o.deep_view(),
{
    match o {
        None => None,
        Some(s) => Some(s.clone()),
    }
}

impl Clone for MessageType {
    /// Cloning keeps the mathematical value.
    fn clone(&self) -> (r: Self)
        ensures
            r.deep_view() == self.deep_view(),
    {
        match self {
            MessageType::Plain { content } => MessageType::Plain { content: content.clone() },
            MessageType::Embed(e) => MessageType::Embed(Box::new((**e).clone())),
        }
    }
}

impl Default for Task {
    /// The neutral action: a plain, empty message to the null channel.
    fn default() -> (r: Self)
        ensures
            r.deep_view() == (TaskV::SendMessage {
                send_to: 0u64,
                message: MessageTypeV::Plain { content: Seq::<char>::empty() },
                upload_file: None,
            }),
    {
        Task::SendMessage {
            send_to: 0,
            message: MessageType::Plain { content: String::new() },
            upload_file: None,
        }
    }
}

impl Clone for Task {
    /// Cloning keeps the mathematical value.
    fn clone(&self) -> (r: Self)
        ensures
            r.deep_view() == self.deep_view(),
    {
        match self {
            Task::SendMessage { send_to, message, upload_file } => Task::SendMessage {
                send_to: *send_to,
                message: message.clone(),
                upload_file: clone_opt_string(upload_file),
            },
            Task::UpdateAppearance { new_name, new_icon_filename } => Task::UpdateAppearance {
                new_name: new_name.clone(),
                new_icon_filename: new_icon_filename.clone(),
            },
        }
    }
}

} // verus!
