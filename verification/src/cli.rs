//! The decisions of the command line: where the prompt home is, which model to use and what
//! prompt to send.
use vstd::prelude::*;
use crate::config::PROMPT_DEFAULT_DIRECTORY;
use crate::paths::{join_path, join_spec};
use crate::plugin::{ModelPrompt, ModelPromptBinaryPayload, PromptView};

verus! {

/// Why the command line could not go on.
#[derive(Debug, Clone, PartialEq, Eq)]
pub enum CliError {
    /// Neither a directory was given nor the user's home directory is known.
    HomeDirectoryUnresolved,
    /// Neither a model was given nor a default model is configured.
    NoModelSpecified,
    /// An input file's path has no extension.
    FileExtensionMissing,
    /// An input file's extension is not valid Unicode.
    FileExtensionNotUnicode,
    /// No text, image or document was given.
    NoPromptInput,
}

impl CliError {
    /// The message that describes the error.
    pub open spec fn spec_message(self) -> Seq<char> {
        match self {
            CliError::HomeDirectoryUnresolved => "could not resolve home directory"@,
            CliError::NoModelSpecified => "no model specified"@,
            CliError::FileExtensionMissing => "could not resolve file extension"@,
            CliError::FileExtensionNotUnicode => "error mapping file extension"@,
            CliError::NoPromptInput => "text, image, or document are required for input prompt"@,
        }
    }

    /// The message that describes the error.
    pub fn message(&self) -> (message: String)
        ensures
            message@ == self.spec_message(),
    {
        match self {
            CliError::HomeDirectoryUnresolved => String::from_str("could not resolve home directory"),
            CliError::NoModelSpecified => String::from_str("no model specified"),
            CliError::FileExtensionMissing => String::from_str("could not resolve file extension"),
            CliError::FileExtensionNotUnicode => String::from_str("error mapping file extension"),
            CliError::NoPromptInput => String::from_str(
                "text, image, or document are required for input prompt",
            ),
        }
    }
}

/// The prompt home: the directory given on the command line, otherwise the default directory
/// under the user's home directory.
pub fn resolve_prompt_home(directory: Option<String>, user_home: Option<String>) -> (home: Result<String, CliError>)
    ensures
        match directory {
            Some(d) => home matches Ok(h) && h@ == d@,
            None => match user_home {
                Some(u) => home matches Ok(h) && h@ == join_spec(u@, PROMPT_DEFAULT_DIRECTORY@),
                None => home == Err::<String, CliError>(CliError::HomeDirectoryUnresolved),
            },
        },
{
    match directory {
        Some(d) => Ok(d),
        None => match user_home {
            Some(u) => Ok(join_path(u.as_str(), PROMPT_DEFAULT_DIRECTORY)),
            None => Err(CliError::HomeDirectoryUnresolved),
        },
    }
}

/// The model to converse with: the one given on the command line, otherwise the default model.
pub fn select_model_name(model: Option<String>, default_model: &Option<String>) -> (name: Result<String, CliError>)
    ensures
        match model {
            Some(m) => name matches Ok(n) && n@ == m@,
            None => match *default_model {
                Some(d) => name matches Ok(n) && n@ == d@,
                None => name == Err::<String, CliError>(CliError::NoModelSpecified),
            },
        },
{
    match model {
        Some(m) => Ok(m),
        None => match default_model {
            Some(d) => Ok(d.clone()),
            None => Err(CliError::NoModelSpecified),
        },
    }
}

/// The extension of an input file's path.
#[derive(Debug, Clone, PartialEq, Eq)]
pub enum FileExtension {
    /// The path has no extension.
    Missing,
    /// The extension is not valid Unicode.
    NotUnicode,
    /// The extension.
    Name(String),
}

/// A file given as input: its contents and the extension of its path.
#[derive(Debug, Clone, PartialEq, Eq)]
pub struct InputFile {
    pub data: Vec<u8>,
    pub extension: FileExtension,
}

/// The binary payload of an input file, whose extension names its format.
pub open spec fn file_payload(file: InputFile) -> Result<(Seq<u8>, Seq<char>), CliError> {
    match file.extension {
        FileExtension::Missing => Err(CliError::FileExtensionMissing),
        FileExtension::NotUnicode => Err(CliError::FileExtensionNotUnicode),
        FileExtension::Name(e) => Ok((file.data@, e@)),
    }
}

/// The prompt that the inputs give: the text if any, otherwise the image, otherwise the document.
pub open spec fn input_prompt(
    text: Option<String>,
    image: Option<InputFile>,
    document: Option<InputFile>,
) -> Result<PromptView, CliError> {
    match text {
        Some(t) => Ok(PromptView::Text(t@)),
        None => match image {
            Some(file) => match file_payload(file) {
                Ok((data, format)) => Ok(PromptView::Image(data, format)),
                Err(e) => Err(e),
            },
            None => match document {
                Some(file) => match file_payload(file) {
                    Ok((data, format)) => Ok(PromptView::Document(data, format)),
                    Err(e) => Err(e),
                },
                None => Err(CliError::NoPromptInput),
            },
        },
    }
}

/// The payload of an input file.
fn payload_of(file: InputFile) -> (payload: Result<ModelPromptBinaryPayload, CliError>)
    ensures
        match payload {
            Ok(p) => file_payload(file) == Ok::<(Seq<u8>, Seq<char>), CliError>((p.value@, p.format@)),
            Err(e) => file_payload(file) == Err::<(Seq<u8>, Seq<char>), CliError>(e),
        },
{
    match file.extension {
        FileExtension::Missing => Err(CliError::FileExtensionMissing),
        FileExtension::NotUnicode => Err(CliError::FileExtensionNotUnicode),
        FileExtension::Name(format) => Ok(ModelPromptBinaryPayload { value: file.data, format }),
    }
}

/// The prompt that the command line's inputs give.
pub fn prompt_from_input(
    text: Option<String>,
    image: Option<InputFile>,
    document: Option<InputFile>,
) -> (prompt: Result<ModelPrompt, CliError>)
    ensures
        match prompt {
            Ok(p) => input_prompt(text, image, document) == Ok::<PromptView, CliError>(p@),
            Err(e) => input_prompt(text, image, document) == Err::<PromptView, CliError>(e),
        },
{
    if let Some(t) = text {
        return Ok(ModelPrompt::Text(t));
    }
    if let Some(file) = image {
        return match payload_of(file) {
            Ok(p) => Ok(ModelPrompt::Image(p)),
            Err(e) => Err(e),
        };
    }
    if let Some(file) = document {
        return match payload_of(file) {
            Ok(p) => Ok(ModelPrompt::Document(p)),
            Err(e) => Err(e),
        };
    }
    Err(CliError::NoPromptInput)
}

/// The greeting that the application gives `name`.
pub open spec fn greeting_spec(name: Seq<char>) -> Seq<char> {
    "Hello, "@ + name + "! You've been greeted from Rust!"@
}

/// Greets `name`.
pub fn greeting(name: &str) -> (message: String)
    ensures
        message@ == greeting_spec(name@),
{
    let mut message = String::from_str("Hello, ");
    message.append(name);
    message.append("! You've been greeted from Rust!");
    message
}

} // verus!
