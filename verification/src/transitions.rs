//! From the declaration of a protocol to what is derived from it.
//!
//! A protocol is declared as a list of transitions, `start + message = end`,
//! and a set of messages that the client sends. Derived from it are the
//! function that says where a message leads, for each message of the client
//! the answers that may follow it, and for each state in which the client
//! speaks the messages it may send there. States and messages are given by
//! their place in the protocol's lists of states and messages. Where the
//! declaration comes as tokens, `parse_transitions` reads the transitions
//! from them.

use std::collections::HashSet;
use vstd::prelude::*;
use vstd::std_specs::hash::group_hash_axioms;

verus! {

broadcast use group_hash_axioms;

/// One line of a declaration: the message leads from `start` to `end`.
#[derive(Clone, Copy, Debug, PartialEq, Eq, Structural)]
pub struct Transition {
    pub start: usize,
    pub message: usize,
    pub end: usize,
}

/// The transitions of `ts` for the message `m`, in order.
pub open spec fn for_message(ts: Seq<Transition>, m: usize) -> Seq<Transition>
    decreases ts.len(),
{
    if ts.len() == 0 {
        Seq::empty()
    } else if ts.last().message == m {
        for_message(ts.drop_last(), m).push(ts.last())
    } else {
        for_message(ts.drop_last(), m)
    }
}

/// The messages of the transitions of `ts` that start in state `s`, in order.
pub open spec fn messages_from(ts: Seq<Transition>, s: usize) -> Seq<usize>
    decreases ts.len(),
{
    if ts.len() == 0 {
        Seq::empty()
    } else if ts.last().start == s {
        messages_from(ts.drop_last(), s).push(ts.last().message)
    } else {
        messages_from(ts.drop_last(), s)
    }
}

/// The state that `message` leads to from `state`: the end of the first
/// transition of `ts` for them, or `None` where there is none.
pub open spec fn next_state(ts: Seq<Transition>, state: usize, message: usize) -> Option<usize>
    decreases ts.len(),
{
    if ts.len() == 0 {
        None
    } else if ts[0].start == state && ts[0].message == message {
        Some(ts[0].end)
    } else {
        next_state(ts.skip(1), state, message)
    }
}

/// `values` without the values that occurred before, in the same order.
pub open spec fn each_once(values: Seq<usize>) -> Seq<usize>
    decreases values.len(),
{
    if values.len() == 0 {
        Seq::empty()
    } else {
        let before = each_once(values.drop_last());
        if before.contains(values.last()) {
            before
        } else {
            before.push(values.last())
        }
    }
}

/// The states in which the messages `clients` are sent: the starts of their
/// transitions, message by message.
pub open spec fn starts_of(ts: Seq<Transition>, clients: Seq<usize>) -> Seq<usize>
    decreases clients.len(),
{
    if clients.len() == 0 {
        Seq::empty()
    } else {
        starts_of(ts, clients.drop_last()) + Seq::new(
            for_message(ts, clients.last()).len(),
            |i: int| for_message(ts, clients.last())[i].start,
        )
    }
}

/// What is derived for the answers to a message, or for the messages of a state.
#[derive(Clone, Debug)]
pub enum Derived {
    /// Nothing: no message may follow.
    Nothing,
    /// A function that picks out the one message that may follow and gives
    /// what it carries.
    One(usize),
    /// A type with a variant for each message that may follow, and a
    /// function that picks those messages out.
    Several(Vec<usize>),
}

/// What is derived for a list of messages that may follow.
pub open spec fn derived_for(messages: Seq<usize>, d: Derived) -> bool {
    if messages.len() == 0 {
        d is Nothing
    } else if messages.len() == 1 {
        d == Derived::One(messages[0])
    } else {
        d matches Derived::Several(all) && all@ == messages
    }
}

/// Why nothing can be derived from a declaration.
#[derive(Clone, Copy, Debug, PartialEq, Eq, Structural)]
pub enum DeriveError {
    /// A message of the client has this many transitions, and they do not
    /// lead to one state.
    NotOneOutcome(usize),
    /// This message has no transition.
    NoTransition(usize),
    /// A transition names a message that the protocol does not have.
    UnknownMessage(usize),
}

/// The declaration of a protocol.
pub struct Context {
    transitions: Vec<Transition>,
}

impl View for Context {
    type V = Seq<Transition>;

    closed spec fn view(&self) -> Seq<Transition> {
        self.transitions@
    }
}

fn classify(messages: Vec<usize>) -> (d: Derived)
    ensures
        derived_for(messages@, d),
{
    if messages.len() == 0 {
        Derived::Nothing
    } else if messages.len() == 1 {
        Derived::One(messages[0])
    } else {
        Derived::Several(messages)
    }
}

impl Context {
    /// The declaration with these transitions.
    pub fn new(transitions: Vec<Transition>) -> (c: Context)
        ensures
            c@ == transitions@,
    {
        Context { transitions }
    }

    /// The transitions for the message `m`, in the order of the declaration.
    pub fn transitions_for_message(&self, m: usize) -> (found: Vec<Transition>)
        ensures
            found@ == for_message(self@, m),
    {
        let mut found: Vec<Transition> = Vec::new();
        let mut i: usize = 0;
        assert(self.transitions@.take(0) =~= Seq::<Transition>::empty());
        while i < self.transitions.len()
            invariant
                i <= self.transitions@.len(),
                found@ == for_message(self.transitions@.take(i as int), m),
            decreases self.transitions@.len() - i,
        {
            let t = self.transitions[i];
            assert(self.transitions@.take(i + 1).drop_last() =~= self.transitions@.take(i as int));
            if t.message == m {
                found.push(t);
            }
            i += 1;
        }
        assert(self.transitions@.take(i as int) =~= self.transitions@);
        found
    }

    /// The messages of the transitions that start in state `starts_with`, in
    /// the order of the declaration.
    pub fn transitions_messages_starts_with_state(&self, starts_with: usize) -> (found: Vec<usize>)
        ensures
            found@ == messages_from(self@, starts_with),
    {
        let mut found: Vec<usize> = Vec::new();
        let mut i: usize = 0;
        assert(self.transitions@.take(0) =~= Seq::<Transition>::empty());
        while i < self.transitions.len()
            invariant
                i <= self.transitions@.len(),
                found@ == messages_from(self.transitions@.take(i as int), starts_with),
            decreases self.transitions@.len() - i,
        {
            let t = self.transitions[i];
            assert(self.transitions@.take(i + 1).drop_last() =~= self.transitions@.take(i as int));
            if t.start == starts_with {
                found.push(t.message);
            }
            i += 1;
        }
        assert(self.transitions@.take(i as int) =~= self.transitions@);
        found
    }

    /// The state that `message` leads to from `state`, as the derived
    /// transition function gives it: the end of the first transition for
    /// them, or `None` where the declaration has none.
    pub fn transition(&self, state: usize, message: usize) -> (next: Option<usize>)
        ensures
            next == next_state(self@, state, message),
    {
        let mut i: usize = 0;
        assert(self.transitions@.skip(0) =~= self.transitions@);
        while i < self.transitions.len()
            invariant
                i <= self.transitions@.len(),
                next_state(self.transitions@, state, message) == next_state(
                    self.transitions@.skip(i as int),
                    state,
                    message,
                ),
            decreases self.transitions@.len() - i,
        {
            let t = self.transitions[i];
            if t.start == state && t.message == message {
                return Some(t.end);
            }
            assert(self.transitions@.skip(i as int).skip(1) =~= self.transitions@.skip(i + 1));
            i += 1;
        }
        None
    }

    /// What is derived for the answers to the client's message `message`.
    ///
    /// The transitions of the message must lead to one state. The answers
    /// are the messages of the transitions that start there.
    pub fn client_msg_generate(&self, message: usize) -> (r: Result<Derived, DeriveError>)
        ensures
            match r {
                Ok(d) => one_end(self@, message) && derived_for(
                    messages_from(self@, for_message(self@, message)[0].end),
                    d,
                ),
                Err(e) => !one_end(self@, message) && (e matches DeriveError::NotOneOutcome(n) && n
                    == for_message(self@, message).len()),
            },
    {
        let found_trans = self.transitions_for_message(message);
        if found_trans.len() == 0 {
            return Err(DeriveError::NotOneOutcome(0));
        }
        let end = found_trans[0].end;
        let mut i: usize = 1;
        while i < found_trans.len()
            invariant
                1 <= i <= found_trans@.len(),
                found_trans@ == for_message(self@, message),
                end == found_trans@[0].end,
                forall|j: int| 0 <= j < i ==> (#[trigger] found_trans@[j]).end == end,
            decreases found_trans@.len() - i,
        {
            if found_trans[i].end != end {
                assert(for_message(self@, message)[i as int].end != end);
                return Err(DeriveError::NotOneOutcome(found_trans.len()));
            }
            i += 1;
        }
        let ret_possible = self.transitions_messages_starts_with_state(end);
        Ok(classify(ret_possible))
    }

    /// What is derived for the messages that the client may send in state `st`.
    pub fn server_msg_generate(&self, st: usize) -> (d: Derived)
        ensures
            derived_for(messages_from(self@, st), d),
    {
        classify(self.transitions_messages_starts_with_state(st))
    }

    /// The states in which the client speaks: the starts of the transitions
    /// of the client's messages, each once, in the order of `clients`.
    pub fn server_states(&self, clients: &Vec<usize>) -> (states: Vec<usize>)
        ensures
            states@ == each_once(starts_of(self@, clients@)),
    {
        let mut states: Vec<usize> = Vec::new();
        let mut seen: HashSet<usize> = HashSet::new();
        let mut k: usize = 0;
        assert(clients@.take(0) =~= Seq::<usize>::empty());
        while k < clients.len()
            invariant
                k <= clients@.len(),
                states@ == each_once(starts_of(self@, clients@.take(k as int))),
                forall|x: usize| seen@.contains(x) <==> states@.contains(x),
            decreases clients@.len() - k,
        {
            let found = self.transitions_for_message(clients[k]);
            let ghost before = starts_of(self@, clients@.take(k as int));
            let ghost starts = Seq::new(found@.len(), |i: int| found@[i].start);
            assert(clients@.take(k + 1).drop_last() =~= clients@.take(k as int));
            assert(starts_of(self@, clients@.take(k + 1)) == before + starts);
            let mut i: usize = 0;
            assert(before + starts.take(0) =~= before);
            while i < found.len()
                invariant
                    i <= found@.len(),
                    starts == Seq::new(found@.len(), |i: int| found@[i].start),
                    states@ == each_once(before + starts.take(i as int)),
                    forall|x: usize| seen@.contains(x) <==> states@.contains(x),
                decreases found@.len() - i,
            {
                let start = found[i].start;
                let ghost so_far = before + starts.take(i as int);
                let ghost more = before + starts.take(i + 1);
                assert(more.drop_last() =~= so_far);
                assert(more.last() == start);
                let ghost had = states@;
                if seen.insert(start) {
                    states.push(start);
                    assert forall|x: usize| seen@.contains(x) <==> states@.contains(x) by {
                        assert(states@.last() == start);
                        if had.contains(x) {
                            let at = choose|at: int| 0 <= at < had.len() && had[at] == x;
                            assert(states@[at] == x);
                        }
                        if states@.contains(x) && x != start {
                            let at = choose|at: int| 0 <= at < states@.len() && states@[at] == x;
                            assert(had[at] == x);
                        }
                    }
                }
                i += 1;
            }
            assert(starts.take(found@.len() as int) =~= starts);
            k += 1;
        }
        assert(clients@.take(k as int) =~= clients@);
        states
    }
}

/// What is derived from a declaration, besides the transition function.
pub struct Derivation {
    /// For each message of the client, in order: the message, and what is
    /// derived for its answers.
    pub client: Vec<(usize, Derived)>,
    /// For each state in which the client speaks: the state, and what is
    /// derived for the messages it may send there.
    pub server: Vec<(usize, Derived)>,
}

/// Whether every message below `count` has a transition in `ts`.
pub open spec fn all_used(ts: Seq<Transition>, count: usize) -> bool {
    forall|m: usize| m < count ==> (#[trigger] for_message(ts, m)).len() > 0
}

/// Whether every transition of `ts` names a message below `count`.
pub open spec fn all_known(ts: Seq<Transition>, count: usize) -> bool {
    forall|i: int| 0 <= i < ts.len() ==> (#[trigger] ts[i]).message < count
}

/// Whether the message has a transition in `ts` and all its transitions
/// lead to one state.
pub open spec fn one_end(ts: Seq<Transition>, message: usize) -> bool {
    let found = for_message(ts, message);
    found.len() > 0 && forall|i: int| 0 <= i < found.len() ==> (#[trigger] found[i]).end
        == found[0].end
}

/// Whether the transitions of each message of `clients` lead to one state.
pub open spec fn all_single(ts: Seq<Transition>, clients: Seq<usize>) -> bool {
    forall|k: int| 0 <= k < clients.len() ==> one_end(ts, #[trigger] clients[k])
}

/// Derives, from the declaration of a protocol with `messages` messages of
/// which `clients` are the client's, what the protocol's users are given.
///
/// A declaration is refused where a transition names a message that the
/// protocol does not have, where a message has no transition, and where the
/// transitions of a message of the client lead to more than one state.
pub fn derive_network_state(context: &Context, messages: usize, clients: &Vec<usize>) -> (r: Result<
    Derivation,
    DeriveError,
>)
    ensures
        r is Ok <==> all_known(context@, messages) && all_used(context@, messages) && all_single(
            context@,
            clients@,
        ),
        r matches Err(DeriveError::UnknownMessage(m)) ==> m >= messages && exists|i: int|
            0 <= i < context@.len() && (#[trigger] context@[i]).message == m,
        r matches Err(DeriveError::NoTransition(m)) ==> all_known(context@, messages) && m
            < messages && for_message(context@, m).len() == 0,
        r matches Err(DeriveError::NotOneOutcome(n)) ==> all_known(context@, messages) && all_used(
            context@,
            messages,
        ) && exists|k: int|
            0 <= k < clients@.len() && !one_end(context@, #[trigger] clients@[k]) && for_message(
                context@,
                clients@[k],
            ).len() == n,
        r matches Ok(d) ==> {
            &&& d.client@.len() == clients@.len()
            &&& forall|k: int|
                0 <= k < clients@.len() ==> (#[trigger] d.client@[k]).0 == clients@[k]
                    && derived_for(
                    messages_from(context@, for_message(context@, clients@[k])[0].end),
                    d.client@[k].1,
                )
            &&& d.server@.len() == each_once(starts_of(context@, clients@)).len()
            &&& forall|k: int|
                0 <= k < d.server@.len() ==> (#[trigger] d.server@[k]).0 == each_once(
                    starts_of(context@, clients@),
                )[k] && derived_for(messages_from(context@, d.server@[k].0), d.server@[k].1)
        },
{
    let mut i: usize = 0;
    while i < context.transitions.len()
        invariant
            i <= context.transitions@.len(),
            forall|j: int| 0 <= j < i ==> (#[trigger] context.transitions@[j]).message < messages,
        decreases context.transitions@.len() - i,
    {
        if context.transitions[i].message >= messages {
            return Err(DeriveError::UnknownMessage(context.transitions[i].message));
        }
        i += 1;
    }
    assert(all_known(context@, messages));
    let mut m: usize = 0;
    while m < messages
        invariant
            m <= messages,
            all_known(context@, messages),
            forall|x: usize| x < m ==> (#[trigger] for_message(context@, x)).len() > 0,
        decreases messages - m,
    {
        if context.transitions_for_message(m).len() == 0 {
            return Err(DeriveError::NoTransition(m));
        }
        m += 1;
    }
    assert(all_used(context@, messages));
    let mut client: Vec<(usize, Derived)> = Vec::new();
    let mut k: usize = 0;
    while k < clients.len()
        invariant
            k <= clients@.len(),
            client@.len() == k,
            all_known(context@, messages),
            all_used(context@, messages),
            forall|j: int| 0 <= j < k ==> one_end(context@, #[trigger] clients@[j]),
            forall|j: int|
                0 <= j < k ==> (#[trigger] client@[j]).0 == clients@[j] && derived_for(
                    messages_from(context@, for_message(context@, clients@[j])[0].end),
                    client@[j].1,
                ),
        decreases clients@.len() - k,
    {
        match context.client_msg_generate(clients[k]) {
            Err(e) => {
                return Err(e);
            },
            Ok(d) => {
                client.push((clients[k], d));
            },
        }
        k += 1;
    }
    let states = context.server_states(clients);
    let mut server: Vec<(usize, Derived)> = Vec::new();
    let mut s: usize = 0;
    while s < states.len()
        invariant
            s <= states@.len(),
            server@.len() == s,
            forall|j: int|
                0 <= j < s ==> (#[trigger] server@[j]).0 == states@[j] && derived_for(
                    messages_from(context@, server@[j].0),
                    server@[j].1,
                ),
        decreases states@.len() - s,
    {
        let d = context.server_msg_generate(states[s]);
        server.push((states[s], d));
        s += 1;
    }
    Ok(Derivation { client, server })
}

/// Whether `c` is an upper-case letter of ASCII.
pub open spec fn is_upper(c: u8) -> bool {
    0x41 <= c <= 0x5a
}

/// The bytes that `byte` at place `at` of a name gives in the name's
/// snake-case form: an upper-case letter becomes its lower-case letter, after
/// an underscore unless it begins the name; any other byte stays.
pub open spec fn snake_of(at: int, byte: u8) -> Seq<u8> {
    if is_upper(byte) {
        if at == 0 {
            seq![(byte + 0x20) as u8]
        } else {
            seq![0x5fu8, (byte + 0x20) as u8]
        }
    } else {
        seq![byte]
    }
}

/// The snake-case form of the first `count` bytes of `name`.
pub open spec fn snake_case(name: Seq<u8>, count: nat) -> Seq<u8>
    decreases count,
{
    if count == 0 {
        Seq::empty()
    } else {
        snake_case(name, (count - 1) as nat) + snake_of(count - 1, name[count - 1])
    }
}

/// The snake-case form of a name in camel case, byte by byte, such as
/// `find_intersect` for `FindIntersect`. Only the letters of ASCII count
/// as letters.
pub fn camel_to_snake(s: &[u8]) -> (snake: Vec<u8>)
    ensures
        snake@ == snake_case(s@, s@.len()),
{
    let mut snake_case_name: Vec<u8> = Vec::new();
    let mut i: usize = 0;
    while i < s.len()
        invariant
            i <= s@.len(),
            snake_case_name@ == snake_case(s@, i as nat),
        decreases s@.len() - i,
    {
        let c = s[i];
        let ghost before = snake_case_name@;
        if 0x41 <= c && c <= 0x5a {
            if i != 0 {
                snake_case_name.push(0x5f);
            }
            snake_case_name.push(c + 0x20);
        } else {
            snake_case_name.push(c);
        }
        assert(snake_case_name@ =~= before + snake_of(i as int, c));
        i += 1;
    }
    snake_case_name
}

/// How a punctuation mark stands to the token that follows it.
#[derive(Clone, Copy, Debug, PartialEq, Eq, Structural)]
pub enum Spacing {
    /// Something else follows.
    Alone,
    /// Another mark follows at once, as in `+=`.
    Joint,
}

/// The brackets around a group of tokens.
#[derive(Clone, Copy, Debug, PartialEq, Eq, Structural)]
pub enum Delimiter {
    Parenthesis,
    Brace,
    Bracket,
    Invisible,
}

/// A token of a declaration, or a bracketed group of tokens.
#[derive(Debug)]
pub enum TokenTree {
    /// A name, by its number.
    Ident(usize),
    /// A punctuation mark.
    Punct(char, Spacing),
    /// Tokens in brackets.
    Group(Delimiter, Vec<TokenTree>),
    /// A literal.
    Literal,
}

/// The kinds of tokens.
#[derive(Clone, Copy, Debug, PartialEq, Eq, Structural)]
pub enum TokenKind {
    Ident,
    Punct,
    Group,
    Literal,
}

/// Why tokens are no declaration.
#[derive(Clone, Copy, Debug, PartialEq, Eq, Structural)]
pub enum TokenError {
    /// A name was expected, and a token of this kind was found.
    ExpectedIdent(TokenKind),
    /// A punctuation mark was expected, and a token of this kind was found.
    ExpectedPunct(TokenKind),
    /// The mark `expected` with `spacing` was expected, and the mark `got`
    /// with `got_spacing` was found.
    WrongPunct { expected: char, spacing: Spacing, got: char, got_spacing: Spacing },
    /// A group was expected, and a token of this kind was found.
    ExpectedGroup(TokenKind),
    /// The group has other brackets than expected.
    WrongDelimiter,
    /// The tokens end in the middle of a transition.
    Missing,
}

impl TokenTree {
    /// The kind of the token.
    pub open spec fn kind(self) -> TokenKind {
        match self {
            TokenTree::Ident(_) => TokenKind::Ident,
            TokenTree::Punct(_, _) => TokenKind::Punct,
            TokenTree::Group(_, _) => TokenKind::Group,
            TokenTree::Literal => TokenKind::Literal,
        }
    }
}

/// The name that the token is, or why it is none.
pub open spec fn ident_of(tt: TokenTree) -> Result<usize, TokenError> {
    match tt {
        TokenTree::Ident(name) => Ok(name),
        _ => Err(TokenError::ExpectedIdent(tt.kind())),
    }
}

/// Whether the token is the mark `c` with spacing `spacing`, or why it is not.
pub open spec fn punct_of(tt: TokenTree, c: char, spacing: Spacing) -> Result<(), TokenError> {
    match tt {
        TokenTree::Punct(got, got_spacing) => if got == c && got_spacing == spacing {
            Ok(())
        } else {
            Err(TokenError::WrongPunct { expected: c, spacing, got, got_spacing })
        },
        _ => Err(TokenError::ExpectedPunct(tt.kind())),
    }
}

/// The name that the token is, if it is a name.
pub fn get_ident(tt: &TokenTree) -> (r: Result<usize, TokenError>)
    ensures
        r == ident_of(*tt),
{
    match tt {
        TokenTree::Ident(ident) => Ok(*ident),
        TokenTree::Group(_, _) => Err(TokenError::ExpectedIdent(TokenKind::Group)),
        TokenTree::Punct(_, _) => Err(TokenError::ExpectedIdent(TokenKind::Punct)),
        TokenTree::Literal => Err(TokenError::ExpectedIdent(TokenKind::Literal)),
    }
}

/// Checks that the token is the mark `c` with spacing `spacing`.
pub fn is_punct(tt: &TokenTree, c: char, spacing: Spacing) -> (r: Result<(), TokenError>)
    ensures
        r == punct_of(*tt, c, spacing),
{
    match tt {
        TokenTree::Punct(got, got_spacing) => {
            if *got == c && *got_spacing == spacing {
                Ok(())
            } else {
                Err(TokenError::WrongPunct { expected: c, spacing, got: *got, got_spacing: *got_spacing })
            }
        },
        TokenTree::Group(_, _) => Err(TokenError::ExpectedPunct(TokenKind::Group)),
        TokenTree::Ident(_) => Err(TokenError::ExpectedPunct(TokenKind::Ident)),
        TokenTree::Literal => Err(TokenError::ExpectedPunct(TokenKind::Literal)),
    }
}

/// The tokens of the group that the token is, if it is a group in the
/// brackets `delimiter`.
pub fn get_group(tt: &TokenTree, delimiter: Delimiter) -> (r: Result<&Vec<TokenTree>, TokenError>)
    ensures
        match *tt {
            TokenTree::Group(found, tokens) => if found == delimiter {
                r == Ok::<&Vec<TokenTree>, TokenError>(&tokens)
            } else {
                r == Err::<&Vec<TokenTree>, TokenError>(TokenError::WrongDelimiter)
            },
            _ => r == Err::<&Vec<TokenTree>, TokenError>(TokenError::ExpectedGroup(tt.kind())),
        },
{
    match tt {
        TokenTree::Group(found, tokens) => {
            if *found == delimiter {
                Ok(tokens)
            } else {
                Err(TokenError::WrongDelimiter)
            }
        },
        TokenTree::Ident(_) => Err(TokenError::ExpectedGroup(TokenKind::Ident)),
        TokenTree::Punct(_, _) => Err(TokenError::ExpectedGroup(TokenKind::Punct)),
        TokenTree::Literal => Err(TokenError::ExpectedGroup(TokenKind::Literal)),
    }
}

/// The name at place `at` of `tokens`, or why there is none.
pub open spec fn ident_at(tokens: Seq<TokenTree>, at: int) -> Result<usize, TokenError> {
    if at < tokens.len() {
        ident_of(tokens[at])
    } else {
        Err(TokenError::Missing)
    }
}

/// Whether the mark `c`, alone, is at place `at` of `tokens`, or why not.
pub open spec fn punct_at(tokens: Seq<TokenTree>, at: int, c: char) -> Result<(), TokenError> {
    if at < tokens.len() {
        punct_of(tokens[at], c, Spacing::Alone)
    } else {
        Err(TokenError::Missing)
    }
}

/// The transition that the five tokens from `at` on spell, `start + message
/// = end`, or the first reason why they spell none.
pub open spec fn transition_at(tokens: Seq<TokenTree>, at: int) -> Result<Transition, TokenError> {
    match ident_at(tokens, at) {
        Err(e) => Err(e),
        Ok(start) => match punct_at(tokens, at + 1, '+') {
            Err(e) => Err(e),
            Ok(_) => match ident_at(tokens, at + 2) {
                Err(e) => Err(e),
                Ok(message) => match punct_at(tokens, at + 3, '=') {
                    Err(e) => Err(e),
                    Ok(_) => match ident_at(tokens, at + 4) {
                        Err(e) => Err(e),
                        Ok(end) => Ok(Transition { start, message, end }),
                    },
                },
            },
        },
    }
}

/// The transitions that the tokens from `at` on declare, after those in
/// `found`: transitions of five tokens each, with a comma between two of
/// them and, as one likes, behind the last.
pub open spec fn declared_from(tokens: Seq<TokenTree>, at: nat, found: Seq<Transition>) -> Result<
    Seq<Transition>,
    TokenError,
>
    decreases tokens.len() - at,
{
    if at >= tokens.len() {
        Ok(found)
    } else {
        match transition_at(tokens, at as int) {
            Err(e) => Err(e),
            Ok(t) => if at + 5 >= tokens.len() {
                Ok(found.push(t))
            } else {
                match punct_at(tokens, at + 5 as int, ',') {
                    Err(e) => Err(e),
                    Ok(_) => declared_from(tokens, at + 6, found.push(t)),
                }
            },
        }
    }
}

/// The token at place `at` of `tokens`, if there is one.
fn token_at(tokens: &Vec<TokenTree>, at: usize) -> (r: Result<&TokenTree, TokenError>)
    ensures
        at < tokens@.len() ==> r == Ok::<&TokenTree, TokenError>(&tokens@[at as int]),
        at >= tokens@.len() ==> r == Err::<&TokenTree, TokenError>(TokenError::Missing),
{
    if at < tokens.len() {
        Ok(&tokens[at])
    } else {
        Err(TokenError::Missing)
    }
}

/// Reads the name at place `at` of `tokens`.
fn name_at(tokens: &Vec<TokenTree>, at: usize) -> (r: Result<usize, TokenError>)
    ensures
        r == ident_at(tokens@, at as int),
{
    match token_at(tokens, at) {
        Ok(tt) => get_ident(tt),
        Err(e) => Err(e),
    }
}

/// Checks the mark at place `at` of `tokens`.
fn mark_at(tokens: &Vec<TokenTree>, at: usize, c: char) -> (r: Result<(), TokenError>)
    ensures
        r == punct_at(tokens@, at as int, c),
{
    match token_at(tokens, at) {
        Ok(tt) => is_punct(tt, c, Spacing::Alone),
        Err(e) => Err(e),
    }
}

/// Reads the transitions that the tokens of a declaration spell.
pub fn parse_transitions(group: &Vec<TokenTree>) -> (r: Result<Vec<Transition>, TokenError>)
    ensures
        match declared_from(group@, 0, Seq::empty()) {
            Ok(transitions) => r matches Ok(found) && found@ == transitions,
            Err(e) => r == Err::<Vec<Transition>, TokenError>(e),
        },
{
    let mut transitions: Vec<Transition> = Vec::new();
    let n = group.len();
    let mut at: usize = 0;
    while at < n
        invariant
            n == group@.len(),
            declared_from(group@, 0, Seq::empty()) == declared_from(
                group@,
                at as nat,
                transitions@,
            ),
        decreases n - at,
    {
        let start = match name_at(group, at) {
            Ok(name) => name,
            Err(e) => {
                return Err(e);
            },
        };
        if n - at < 5 {
            // the transition is cut off: the first token that is missing or
            // wrong decides the error
            match mark_at(group, at + 1, '+') {
                Ok(()) => {},
                Err(e) => {
                    return Err(e);
                },
            }
            match name_at(group, at + 2) {
                Ok(_) => {},
                Err(e) => {
                    return Err(e);
                },
            }
            match mark_at(group, at + 3, '=') {
                Ok(()) => {},
                Err(e) => {
                    return Err(e);
                },
            }
            return Err(TokenError::Missing);
        }
        match mark_at(group, at + 1, '+') {
            Ok(()) => {},
            Err(e) => {
                return Err(e);
            },
        }
        let message = match name_at(group, at + 2) {
            Ok(name) => name,
            Err(e) => {
                return Err(e);
            },
        };
        match mark_at(group, at + 3, '=') {
            Ok(()) => {},
            Err(e) => {
                return Err(e);
            },
        }
        let end = match name_at(group, at + 4) {
            Ok(name) => name,
            Err(e) => {
                return Err(e);
            },
        };
        transitions.push(Transition { start, message, end });
        if n - at == 5 {
            return Ok(transitions);
        }
        match mark_at(group, at + 5, ',') {
            Ok(()) => {},
            Err(e) => {
                return Err(e);
            },
        }
        at += 6;
    }
    Ok(transitions)
}

} // verus!
