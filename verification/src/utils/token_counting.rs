//! Counting the tokens of a text, and cutting a text down to a number of
//! tokens, under the byte-pair encoding that goes with a model.
//!
//! The encodings are those that the crate `tiktoken_rs` carries. What they
//! make of a text is not modelled here: `encoded` and `decoded` name it, for
//! each encoding, and the contracts below speak of it by those names.
use crate::models::completion::Usage;
use crate::text::{chars_of, occurs_at};
use tiktoken_rs::CoreBPE;
use vstd::prelude::*;

verus! {

/// What can go wrong with an encoding.
#[derive(Debug, Clone, Copy, PartialEq, Eq, Structural)]
pub enum EncodingError {
    /// The encoding could not be built.
    Unavailable,
    /// The encoding failed on the text.
    Encode,
    /// The tokens do not decode to a text.
    Decode,
    /// There are more tokens than the count can hold.
    TooLong,
}

/// The encodings that the known models use.
#[derive(Debug, Clone, Copy, PartialEq, Eq, Structural)]
pub enum EncodingFamily {
    Cl100kBase,
    O200kBase,
    P50kBase,
}

/// A byte-pair encoding of `tiktoken_rs`: its vocabulary and the pattern that
/// splits a text into pieces.
#[verifier::external_type_specification]
#[verifier::external_body]
pub struct ExCoreBPE(tiktoken_rs::CoreBPE);

/// What `tiktoken_rs` reports when the pattern of an encoding fails on a text.
#[verifier::external_type_specification]
#[verifier::external_body]
pub struct ExEncodeError(tiktoken_rs::EncodeError);

/// What `tiktoken_rs` reports when an encoding cannot be built, or when
/// tokens do not decode to a text.
#[verifier::external_type_specification]
#[verifier::external_body]
pub struct ExAnyhowError(anyhow::Error);

/// Which of the encodings that `tiktoken_rs` carries `bpe` is: the one from
/// whose table it was built. `None` of an encoding that was built in any
/// other way. The three functions below that build an encoding say this of
/// what they build.
pub uninterp spec fn table_of(bpe: CoreBPE) -> Option<EncodingFamily>;

/// The tokens that `CoreBPE::encode` makes of `text` under the encoding
/// `family` when every special token of the encoding is allowed; `None`
/// where it reports an error.
pub uninterp spec fn encoded(family: EncodingFamily, text: Seq<char>) -> Option<Seq<u32>>;

/// The text that `CoreBPE::decode` makes of `tokens` under the encoding
/// `family`; `None` where it reports an error.
pub uninterp spec fn decoded(family: EncodingFamily, tokens: Seq<u32>) -> Option<Seq<char>>;

/// `tiktoken_rs::cl100k_base` builds the encoding `cl100k_base` from the
/// table that the crate carries. It takes nothing from outside: every line
/// of the table is a token in base64 and its rank, no rank stands twice, and
/// the pattern is a fixed one that compiles; so it succeeds.
#[verifier::external_body]
fn load_cl100k_base() -> (r: Result<CoreBPE, anyhow::Error>)
    ensures
        r is Ok,
        table_of(r->Ok_0) == Some(EncodingFamily::Cl100kBase),
{
    tiktoken_rs::cl100k_base()
}

/// `tiktoken_rs::o200k_base` builds the encoding `o200k_base` from the table
/// that the crate carries. It takes nothing from outside: every line of the
/// table is a token in base64 and its rank, no rank stands twice, and the
/// pattern is a fixed one that compiles; so it succeeds.
#[verifier::external_body]
fn load_o200k_base() -> (r: Result<CoreBPE, anyhow::Error>)
    ensures
        r is Ok,
        table_of(r->Ok_0) == Some(EncodingFamily::O200kBase),
{
    tiktoken_rs::o200k_base()
}

/// `tiktoken_rs::p50k_base` builds the encoding `p50k_base` from the table
/// that the crate carries. It takes nothing from outside: every line of the
/// table is a token in base64 and its rank, no rank stands twice, and the
/// pattern is a fixed one that compiles; so it succeeds.
#[verifier::external_body]
fn load_p50k_base() -> (r: Result<CoreBPE, anyhow::Error>)
    ensures
        r is Ok,
        table_of(r->Ok_0) == Some(EncodingFamily::P50kBase),
{
    tiktoken_rs::p50k_base()
}

/// `CoreBPE::encode`, with the set that `CoreBPE::special_tokens` gives as
/// the special tokens allowed: this is what `encode_with_special_tokens`
/// computes, except that a failure of the pattern comes back as an error.
/// It is asked only of an encoding of `tiktoken_rs` itself. Such an encoding
/// is built from a fixed table, so the result depends on the text and on
/// which encoding it is, and is `encoded`. The call looks every byte of the
/// text up in the table, and the three tables hold every byte. An empty text
/// has no tokens: none of the three patterns matches in it.
#[verifier::external_body]
fn encode(bpe: &CoreBPE, text: &str) -> (r: Result<Vec<u32>, tiktoken_rs::EncodeError>)
    requires
        table_of(*bpe) is Some,
    ensures
        match r {
            Ok(tokens) => encoded(table_of(*bpe)->0, text@) == Some(tokens@),
            Err(_) => encoded(table_of(*bpe)->0, text@) is None,
        },
        text@.len() == 0 ==> r is Ok && r->Ok_0@.len() == 0,
{
    bpe.encode(text, &bpe.special_tokens()).map(|(tokens, _)| tokens)
}

/// `CoreBPE::decode` joins the bytes of the tokens and reads them as UTF-8.
/// It is asked only of an encoding of `tiktoken_rs` itself, so the result
/// depends on the tokens and on which encoding it is, and is `decoded`. No
/// tokens make no bytes, which read as the empty text.
#[verifier::external_body]
fn decode(bpe: &CoreBPE, tokens: &[u32]) -> (r: Result<String, anyhow::Error>)
    requires
        table_of(*bpe) is Some,
    ensures
        match r {
            Ok(text) => decoded(table_of(*bpe)->0, tokens@) == Some(text@),
            Err(_) => decoded(table_of(*bpe)->0, tokens@) is None,
        },
        tokens@.len() == 0 ==> r is Ok && r->Ok_0@.len() == 0,
{
    bpe.decode(tokens)
}

/// The number of entries of the table of known models.
pub const KNOWN_MODELS: usize = 7;

/// The table of known models: entry `i` holds the name of a model and the
/// encoding of that model and of those whose names start with it. Where one
/// name starts with another, the longer one stands first, so that the entry
/// found for a model is the closest one.
pub open spec fn known_model(i: int) -> (Seq<char>, EncodingFamily) {
    if i == 0 {
        ("gpt-4o-mini"@, EncodingFamily::O200kBase)
    } else if i == 1 {
        ("gpt-4o"@, EncodingFamily::O200kBase)
    } else if i == 2 {
        ("gpt-4"@, EncodingFamily::Cl100kBase)
    } else if i == 3 {
        ("gpt-3.5-turbo"@, EncodingFamily::Cl100kBase)
    } else if i == 4 {
        ("text-embedding-ada-002"@, EncodingFamily::Cl100kBase)
    } else if i == 5 {
        ("text-davinci-002"@, EncodingFamily::P50kBase)
    } else {
        ("text-davinci-003"@, EncodingFamily::P50kBase)
    }
}

/// The encoding of the first entry from `from` on whose name is `model` or
/// starts it; `cl100k_base` where there is none.
pub open spec fn family_from(model: Seq<char>, from: int) -> EncodingFamily
    decreases KNOWN_MODELS - from,
{
    if from < 0 || from >= KNOWN_MODELS {
        EncodingFamily::Cl100kBase
    } else if occurs_at(model, known_model(from).0, 0) {
        known_model(from).1
    } else {
        family_from(model, from + 1)
    }
}

/// The encoding that goes with a model: that of the first entry of the table
/// whose name is `model` or starts it, and `cl100k_base` for any other model.
pub open spec fn family_of_model(model: Seq<char>) -> EncodingFamily {
    family_from(model, 0)
}

/// A model of the table has the encoding of its own entry.
pub proof fn lemma_known_models_have_their_encodings()
    ensures
        forall|i: int|
            0 <= i < KNOWN_MODELS ==> family_of_model(#[trigger] known_model(i).0) == known_model(
                i,
            ).1,
{
    reveal_strlit("gpt-4o-mini");
    reveal_strlit("gpt-4o");
    reveal_strlit("gpt-4");
    reveal_strlit("gpt-3.5-turbo");
    reveal_strlit("text-embedding-ada-002");
    reveal_strlit("text-davinci-002");
    reveal_strlit("text-davinci-003");
    reveal_with_fuel(family_from, 8);
    assert forall|i: int| 0 <= i < KNOWN_MODELS implies family_of_model(
        #[trigger] known_model(i).0,
    ) == known_model(i).1 by {
        let name = known_model(i).0;
        assert(occurs_at(name, name, 0)) by {
            assert(name.subrange(0, name.len() as int) =~= name);
        }
        assert forall|j: int| 0 <= j < i implies !occurs_at(name, #[trigger] known_model(j).0, 0)
            || known_model(j).1 == known_model(i).1 by {
            let other = known_model(j).0;
            if other.len() <= name.len() && known_model(j).1 != known_model(i).1 {
                assert(name.subrange(0, other.len() as int)[0] == name[0]);
                assert(name.subrange(0, other.len() as int)[4] == name[4]);
            }
        }
    }
}

fn table_entry(i: usize) -> (r: (&'static str, EncodingFamily))
    requires
        i < KNOWN_MODELS,
    ensures
        r.0@ == known_model(i as int).0,
        r.1 == known_model(i as int).1,
{
    if i == 0 {
        ("gpt-4o-mini", EncodingFamily::O200kBase)
    } else if i == 1 {
        ("gpt-4o", EncodingFamily::O200kBase)
    } else if i == 2 {
        ("gpt-4", EncodingFamily::Cl100kBase)
    } else if i == 3 {
        ("gpt-3.5-turbo", EncodingFamily::Cl100kBase)
    } else if i == 4 {
        ("text-embedding-ada-002", EncodingFamily::Cl100kBase)
    } else if i == 5 {
        ("text-davinci-002", EncodingFamily::P50kBase)
    } else {
        ("text-davinci-003", EncodingFamily::P50kBase)
    }
}

/// Tells whether `text` starts with `prefix`.
fn starts_with(text: &Vec<char>, prefix: &Vec<char>) -> (r: bool)
    ensures
        r == occurs_at(text@, prefix@, 0),
{
    if prefix.len() > text.len() {
        return false;
    }
    let mut k: usize = 0;
    while k < prefix.len()
        invariant
            k <= prefix.len() <= text.len(),
            forall|j: int| 0 <= j < k ==> text@[j] == #[trigger] prefix@[j],
        decreases prefix.len() - k,
    {
        if text[k] != prefix[k] {
            return false;
        }
        k += 1;
    }
    assert(text@.subrange(0, prefix.len() as int) =~= prefix@);
    true
}

/// Looks the model up in the table of known models.
pub fn family_for(model: &str) -> (r: EncodingFamily)
    ensures
        r == family_of_model(model@),
{
    let name = chars_of(model);
    let mut i: usize = 0;
    while i < KNOWN_MODELS
        invariant
            i <= KNOWN_MODELS,
            name@ == model@,
            family_of_model(model@) == family_from(model@, i as int),
        decreases KNOWN_MODELS - i,
    {
        let entry = table_entry(i);
        let known = chars_of(entry.0);
        if starts_with(&name, &known) {
            return entry.1;
        }
        i += 1;
    }
    EncodingFamily::Cl100kBase
}

/// A message of a chat: who speaks, and what is said.
pub struct ChatMessage {
    pub role: String,
    pub content: String,
}

/// The tokens that every message of a chat takes beside those of its role and
/// of its content.
pub const TOKENS_PER_MESSAGE: u32 = 3;

/// The number of tokens of `text` under the encoding `family`.
pub open spec fn counted(family: EncodingFamily, text: Seq<char>) -> Result<u32, EncodingError> {
    match encoded(family, text) {
        None => Err(EncodingError::Encode),
        Some(tokens) => if tokens.len() <= u32::MAX {
            Ok(tokens.len() as u32)
        } else {
            Err(EncodingError::TooLong)
        },
    }
}

/// `text` cut down to its first `max_tokens` tokens under the encoding
/// `family`: `text` itself where it has no more tokens than that, and else
/// what the first `max_tokens` of its tokens decode to.
pub open spec fn truncated(family: EncodingFamily, text: Seq<char>, max_tokens: u32) -> Result<
    Seq<char>,
    EncodingError,
> {
    match encoded(family, text) {
        None => Err(EncodingError::Encode),
        Some(tokens) => if tokens.len() <= max_tokens {
            Ok(text)
        } else {
            match decoded(family, tokens.take(max_tokens as int)) {
                Some(cut) => Ok(cut),
                None => Err(EncodingError::Decode),
            }
        },
    }
}

/// The token counts of a prompt and of its completion under the encoding
/// `family`, and their sum.
pub open spec fn usage_of(family: EncodingFamily, prompt: Seq<char>, completion: Seq<char>) -> Result<
    Usage,
    EncodingError,
> {
    match counted(family, prompt) {
        Err(e) => Err(e),
        Ok(prompt_tokens) => match counted(family, completion) {
            Err(e) => Err(e),
            Ok(completion_tokens) => Ok(
                Usage {
                    prompt_tokens: prompt_tokens as u64,
                    completion_tokens: completion_tokens as u64,
                    total_tokens: (prompt_tokens + completion_tokens) as u64,
                },
            ),
        },
    }
}

/// The tokens that the first `upto` messages take under the encoding
/// `family`: for each message those of its content, those of its role, and
/// `TOKENS_PER_MESSAGE` more. The counts are taken in that order, and the
/// first that fails, or the first message with which the sum grows beyond a
/// `u32`, decides the error.
pub open spec fn messages_counted(
    family: EncodingFamily,
    messages: Seq<ChatMessage>,
    upto: int,
) -> Result<u32, EncodingError>
    decreases upto,
{
    if upto <= 0 {
        Ok(0)
    } else {
        match messages_counted(family, messages, upto - 1) {
            Err(e) => Err(e),
            Ok(before) => match counted(family, messages[upto - 1].content@) {
                Err(e) => Err(e),
                Ok(content) => match counted(family, messages[upto - 1].role@) {
                    Err(e) => Err(e),
                    Ok(role) => if before + content + role + TOKENS_PER_MESSAGE <= u32::MAX {
                        Ok((before + content + role + TOKENS_PER_MESSAGE) as u32)
                    } else {
                        Err(EncodingError::TooLong)
                    },
                },
            }
        }
    }
}

/// Once the count of the first messages has failed, that of more messages
/// fails in the same way.
pub proof fn lemma_messages_error_stays(
    family: EncodingFamily,
    messages: Seq<ChatMessage>,
    upto: int,
    later: int,
)
    requires
        upto <= later,
        messages_counted(family, messages, upto) is Err,
    ensures
        messages_counted(family, messages, later) == messages_counted(family, messages, upto),
    decreases later - upto,
{
    if upto < later {
        lemma_messages_error_stays(family, messages, upto, later - 1);
    }
}

/// Counts and cuts texts by tokens, under the encoding of a model. The
/// encoding is always one of those that `tiktoken_rs` carries.
pub struct TokenCounter {
    encoding: CoreBPE,
}

impl TokenCounter {
    #[verifier::type_invariant]
    spec fn carried(&self) -> bool {
        table_of(self.encoding) is Some
    }

    /// Which encoding the counter holds.
    pub closed spec fn family(&self) -> EncodingFamily {
        table_of(self.encoding)->0
    }

    /// The counter for `model`, with the encoding that the table of known
    /// models gives for it: `cl100k_base` for a model that the table does
    /// not know. There is a counter for every model.
    pub fn new(model: &str) -> (r: Result<Self, EncodingError>)
        ensures
            r matches Ok(counter) && counter.family() == family_of_model(model@),
    {
        let family = family_for(model);
        let loaded = match family {
            EncodingFamily::Cl100kBase => load_cl100k_base(),
            EncodingFamily::O200kBase => load_o200k_base(),
            EncodingFamily::P50kBase => load_p50k_base(),
        };
        match loaded {
            Ok(encoding) => Ok(TokenCounter { encoding }),
            Err(_) => Err(EncodingError::Unavailable),
        }
    }

    /// Counts the tokens of `text`, special tokens counted as such.
    pub fn count_tokens(&self, text: &str) -> (r: Result<u32, EncodingError>)
        ensures
            r == counted(self.family(), text@),
            text@.len() == 0 ==> r == Ok::<u32, EncodingError>(0),
    {
        proof {
            use_type_invariant(self);
        }
        match encode(&self.encoding, text) {
            Ok(tokens) => {
                if tokens.len() <= u32::MAX as usize {
                    Ok(tokens.len() as u32)
                } else {
                    Err(EncodingError::TooLong)
                }
            },
            Err(_) => Err(EncodingError::Encode),
        }
    }

    /// Counts the tokens of the messages of a chat.
    pub fn count_messages_tokens(&self, messages: &[ChatMessage]) -> (r: Result<
        u32,
        EncodingError,
    >)
        ensures
            r == messages_counted(self.family(), messages@, messages@.len() as int),
    {
        let mut total: u32 = 0;
        let mut i: usize = 0;
        while i < messages.len()
            invariant
                i <= messages.len(),
                messages_counted(self.family(), messages@, i as int) == Ok::<u32, EncodingError>(
                    total,
                ),
            decreases messages.len() - i,
        {
            let content = match self.count_tokens(messages[i].content.as_str()) {
                Ok(content) => content,
                Err(e) => {
                    proof {
                        lemma_messages_error_stays(
                            self.family(),
                            messages@,
                            i + 1,
                            messages@.len() as int,
                        );
                    }
                    return Err(e);
                },
            };
            let role = match self.count_tokens(messages[i].role.as_str()) {
                Ok(role) => role,
                Err(e) => {
                    proof {
                        lemma_messages_error_stays(
                            self.family(),
                            messages@,
                            i + 1,
                            messages@.len() as int,
                        );
                    }
                    return Err(e);
                },
            };
            let sum: u64 = total as u64 + content as u64 + role as u64 + TOKENS_PER_MESSAGE as u64;
            if sum > u32::MAX as u64 {
                proof {
                    lemma_messages_error_stays(
                        self.family(),
                        messages@,
                        i + 1,
                        messages@.len() as int,
                    );
                }
                return Err(EncodingError::TooLong);
            }
            total = sum as u32;
            i += 1;
        }
        Ok(total)
    }

    /// Counts the tokens of a prompt and of its completion.
    pub fn calculate_usage(&self, prompt: &str, completion: &str) -> (r: Result<
        Usage,
        EncodingError,
    >)
        ensures
            r == usage_of(self.family(), prompt@, completion@),
            r matches Ok(usage) ==> usage.wf(),
    {
        let prompt_tokens = self.count_tokens(prompt)?;
        let completion_tokens = self.count_tokens(completion)?;
        Ok(
            Usage {
                prompt_tokens: prompt_tokens as u64,
                completion_tokens: completion_tokens as u64,
                total_tokens: prompt_tokens as u64 + completion_tokens as u64,
            },
        )
    }

    /// Cuts `text` down to its first `max_tokens` tokens.
    pub fn truncate_to_tokens(&self, text: &str, max_tokens: u32) -> (r: Result<
        String,
        EncodingError,
    >)
        ensures
            match r {
                Ok(cut) => truncated(self.family(), text@, max_tokens) == Ok::<
                    Seq<char>,
                    EncodingError,
                >(cut@),
                Err(e) => truncated(self.family(), text@, max_tokens) == Err::<
                    Seq<char>,
                    EncodingError,
                >(e),
            },
    {
        proof {
            use_type_invariant(self);
        }
        let tokens = match encode(&self.encoding, text) {
            Ok(tokens) => tokens,
            Err(_) => {
                return Err(EncodingError::Encode);
            },
        };
        if tokens.len() <= max_tokens as usize {
            return Ok(text.to_string());
        }
        let kept = vstd::slice::slice_subrange(tokens.as_slice(), 0, max_tokens as usize);
        match decode(&self.encoding, kept) {
            Ok(cut) => Ok(cut),
            Err(_) => Err(EncodingError::Decode),
        }
    }
}

/// Cutting a text down to as many tokens as it has leaves it as it is.
pub proof fn lemma_truncate_to_count(family: EncodingFamily, text: Seq<char>)
    ensures
        counted(family, text) matches Ok(count) ==> truncated(family, text, count) == Ok::<
            Seq<char>,
            EncodingError,
        >(text),
{
}

} // verus!
