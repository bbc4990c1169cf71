//! The stateless message dispatcher. Each inbound message is judged on
//! its literal text alone: `!hello` answers with a fixed demo embed,
//! `!fractals` starts the resolution pipeline, and anything else is
//! ignored. The surrounding application performs the HTTP fetches the
//! returned actions ask for and feeds the outcomes back in; every
//! decision lives here and is verified.

use vstd::prelude::*;
use crate::model::DailySet;
use crate::model::Achievement;
use crate::errors::BotError;
use crate::pipeline::ids_of;
use crate::pipeline::join_ids;
use crate::pipeline::daily_names;
use crate::pipeline::recommended_names;
use crate::pipeline::fractal_ids;
use crate::pipeline::achievements_url;
use crate::pipeline::summarize;
use crate::pipeline::REQUIRED_ACHIEVEMENT_COUNT;
use crate::text::str_eq;

verus! {

/// One labeled field of an embed.
#[derive(Debug, Clone, PartialEq)]
pub struct EmbedField {
    pub name: String,
    pub value: String,
    pub inline: bool,
}

/// A structured, styled message payload.
#[derive(Debug, Clone, PartialEq)]
pub struct Embed {
    pub title: String,
    pub description: Option<String>,
    pub image: Option<String>,
    pub fields: Vec<EmbedField>,
    pub footer: Option<String>,
}

/// One outbound chat message: optional plain content, its embeds, and the
/// local file paths to attach.
#[derive(Debug, Clone, PartialEq)]
pub struct OutboundMessage {
    pub content: Option<String>,
    pub embeds: Vec<Embed>,
    pub attachments: Vec<String>,
}

/// What the dispatcher asks the surrounding runtime to do with an
/// inbound message.
#[derive(Debug, Clone, PartialEq)]
pub enum Action {
    /// The message matched no command; send nothing.
    Ignore,
    /// Send this message back to the originating channel.
    Send(OutboundMessage),
    /// Fetch tomorrow's dailies and hand the outcome to `on_dailies`.
    FetchDailies,
}

/// What the dispatcher asks for after the dailies fetch.
#[derive(Debug, Clone, PartialEq)]
pub enum DailiesStep {
    /// Send this message back to the originating channel.
    Respond(OutboundMessage),
    /// Fetch this URL and hand the outcome to `on_achievements`.
    FetchAchievements(String),
}

/// An "Error" report: no content, no attachment, and exactly one embed
/// titled `Error` whose description is `text`.
pub open spec fn is_error_message(m: OutboundMessage, text: Seq<char>) -> bool {
    &&& m.content is None
    &&& m.attachments@.len() == 0
    &&& m.embeds@.len() == 1
    &&& m.embeds@[0].title@ == "Error"@
    &&& m.embeds@[0].description is Some
    &&& m.embeds@[0].description->0@ == text
    &&& m.embeds@[0].image is None
    &&& m.embeds@[0].fields@.len() == 0
    &&& m.embeds@[0].footer is None
}

/// The fixed `!hello` demonstration reply: a greeting, one attached
/// image, and one embed with a title, a description, an image reference,
/// exactly three fields and a footer.
pub open spec fn is_hello_message(m: OutboundMessage) -> bool {
    &&& m.content is Some
    &&& m.content->0@ == "Hello, World!"@
    &&& m.attachments@.len() == 1
    &&& m.attachments@[0]@ == "./ferris_eyes.png"@
    &&& m.embeds@.len() == 1
    &&& m.embeds@[0].title@ == "This is a title"@
    &&& m.embeds@[0].description is Some
    &&& m.embeds@[0].description->0@ == "This is a description"@
    &&& m.embeds@[0].image is Some
    &&& m.embeds@[0].image->0@ == "attachment://ferris_eyes.png"@
    &&& m.embeds@[0].fields@.len() == 3
    &&& m.embeds@[0].fields@[0].name@ == "This is the first field"@
    &&& m.embeds@[0].fields@[0].value@ == "This is a field body"@
    &&& m.embeds@[0].fields@[0].inline == true
    &&& m.embeds@[0].fields@[1].name@ == "This is the second field"@
    &&& m.embeds@[0].fields@[1].value@ == "Both of these fields are inline"@
    &&& m.embeds@[0].fields@[1].inline == true
    &&& m.embeds@[0].fields@[2].name@ == "This is the third field"@
    &&& m.embeds@[0].fields@[2].value@ == "This is not an inline field"@
    &&& m.embeds@[0].fields@[2].inline == false
    &&& m.embeds@[0].footer is Some
    &&& m.embeds@[0].footer->0@ == "This is a footer"@
}

/// The successful `!fractals` reply: one embed titled
/// `Tomorrow's Daily Fractals:` with the two labeled category fields.
pub open spec fn is_fractal_summary_message(m: OutboundMessage, achs: Seq<Achievement>) -> bool {
    &&& m.content is None
    &&& m.attachments@.len() == 0
    &&& m.embeds@.len() == 1
    &&& m.embeds@[0].title@ == "Tomorrow's Daily Fractals:"@
    &&& m.embeds@[0].description is None
    &&& m.embeds@[0].image is None
    &&& m.embeds@[0].footer is None
    &&& m.embeds@[0].fields@.len() == 2
    &&& m.embeds@[0].fields@[0].name@ == "Daily Fractals"@
    &&& m.embeds@[0].fields@[0].value@ == daily_names(achs)
    &&& m.embeds@[0].fields@[0].inline == false
    &&& m.embeds@[0].fields@[1].name@ == "Recommended Fractals"@
    &&& m.embeds@[0].fields@[1].value@ == recommended_names(achs)
    &&& m.embeds@[0].fields@[1].inline == false
}

/// Builds the fixed `!hello` reply.
pub fn hello_message() -> (m: OutboundMessage)
    ensures
        is_hello_message(m),
{
    let mut fields: Vec<EmbedField> = Vec::new();
    fields.push(
        EmbedField {
            name: "This is the first field".to_owned(),
            value: "This is a field body".to_owned(),
            inline: true,
        },
    );
    fields.push(
        EmbedField {
            name: "This is the second field".to_owned(),
            value: "Both of these fields are inline".to_owned(),
            inline: true,
        },
    );
    fields.push(
        EmbedField {
            name: "This is the third field".to_owned(),
            value: "This is not an inline field".to_owned(),
            inline: false,
        },
    );
    let embed = Embed {
        title: "This is a title".to_owned(),
        description: Some("This is a description".to_owned()),
        image: Some("attachment://ferris_eyes.png".to_owned()),
        fields,
        footer: Some("This is a footer".to_owned()),
    };
    let mut embeds: Vec<Embed> = Vec::new();
    embeds.push(embed);
    let mut attachments: Vec<String> = Vec::new();
    attachments.push("./ferris_eyes.png".to_owned());
    OutboundMessage { content: Some("Hello, World!".to_owned()), embeds, attachments }
}

/// Builds an "Error" reply carrying the error's user-visible text.
pub fn error_message(e: &BotError) -> (m: OutboundMessage)
    ensures
        is_error_message(m, e.message_spec()),
{
    let embed = Embed {
        title: "Error".to_owned(),
        description: Some(e.message()),
        image: None,
        fields: Vec::new(),
        footer: None,
    };
    let mut embeds: Vec<Embed> = Vec::new();
    embeds.push(embed);
    OutboundMessage { content: None, embeds, attachments: Vec::new() }
}

/// Judges one inbound message. `!hello` answers at once, `!fractals`
/// starts the pipeline, and any other content — command or chatter — is
/// ignored without an answer.
pub fn on_message(content: &str) -> (r: Action)
    ensures
        content@ == "!hello"@ ==> (r matches Action::Send(m) && is_hello_message(m)),
        content@ == "!fractals"@ ==> r == Action::FetchDailies,
        content@ != "!hello"@ && content@ != "!fractals"@ ==> r == Action::Ignore,
{
    proof {
        reveal_strlit("!hello");
        reveal_strlit("!fractals");
        assert("!hello"@.len() == 6);
        assert("!fractals"@.len() == 9);
    }
    if str_eq(content, "!hello") {
        Action::Send(hello_message())
    } else if str_eq(content, "!fractals") {
        Action::FetchDailies
    } else {
        Action::Ignore
    }
}

/// Consumes the outcome of the dailies fetch. A failure is answered with
/// exactly one "Error" embed carrying the error's text, and the
/// achievements endpoint is not contacted; on success the next step is
/// the achievements fetch for the fractal IDs, in their original order.
pub fn on_dailies(r: Result<DailySet, BotError>) -> (step: DailiesStep)
    ensures
        (r matches Ok(d) ==> (step matches DailiesStep::FetchAchievements(url)
            && url@ == "https://api.guildwars2.com/v2/achievements?ids="@ + join_ids(
            ids_of(d.fractals@),
        ))),
        (r matches Err(e) ==> (step matches DailiesStep::Respond(m) && is_error_message(
            m,
            e.message_spec(),
        ))),
{
    match r {
        Ok(d) => {
            let ids = fractal_ids(&d);
            DailiesStep::FetchAchievements(achievements_url(&ids))
        },
        Err(e) => DailiesStep::Respond(error_message(&e)),
    }
}

/// Consumes the outcome of the achievements fetch and builds the final
/// reply: the two-category summary when the response is long enough, and
/// an "Error" embed otherwise — on a short response the `IndexError`
/// carries the length that came back, and no fabricated names are sent.
pub fn on_achievements(r: Result<Vec<Achievement>, BotError>) -> (m: OutboundMessage)
    ensures
        (r matches Ok(a) ==> (a@.len() >= REQUIRED_ACHIEVEMENT_COUNT
            ==> is_fractal_summary_message(m, a@)) && (a@.len() < REQUIRED_ACHIEVEMENT_COUNT
            ==> is_error_message(m, BotError::IndexError(a@.len() as usize).message_spec()))),
        (r matches Err(e) ==> is_error_message(m, e.message_spec())),
{
    match r {
        Ok(a) => {
            match summarize(&a) {
                Ok((daily, recommended)) => {
                    let mut fields: Vec<EmbedField> = Vec::new();
                    fields.push(
                        EmbedField {
                            name: "Daily Fractals".to_owned(),
                            value: daily,
                            inline: false,
                        },
                    );
                    fields.push(
                        EmbedField {
                            name: "Recommended Fractals".to_owned(),
                            value: recommended,
                            inline: false,
                        },
                    );
                    let embed = Embed {
                        title: "Tomorrow's Daily Fractals:".to_owned(),
                        description: None,
                        image: None,
                        fields,
                        footer: None,
                    };
                    let mut embeds: Vec<Embed> = Vec::new();
                    embeds.push(embed);
                    OutboundMessage { content: None, embeds, attachments: Vec::new() }
                },
                Err(e) => error_message(&e),
            }
        },
        Err(e) => error_message(&e),
    }
}

} // verus!
