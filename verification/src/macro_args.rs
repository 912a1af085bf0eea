//! The arguments of `#[trusted_relayer(...)]`.

use crate::syntax::{fault_at, message_of, parse_expressions, parse_identifier, parse_of, reports};
use crate::syntax::{reports_later, syn_expressions, syn_identifier, Expressions, Fault};
use crate::tokens::{all_tokens, pieces_of, read_tokens, tokens_of, Delimiter, Piece, Shape, Token};
use proc_macro2::TokenStream;
use vstd::prelude::*;

verus! {

/// The name of an argument, and the stream that it was read from.
pub struct Name {
    pub text: String,
    pub place: TokenStream,
}

impl View for Name {
    type V = Seq<char>;

    open spec fn view(&self) -> Seq<char> {
        self.text@
    }
}

/// One argument: a name with a list of roles, or a name alone.
pub enum MacroParam {
    RoleList { name: Name, roles: Vec<TokenStream> },
    Flag(Name),
}

/// An argument with its roles by their tokens.
pub enum ParamView {
    RoleList { name: Seq<char>, roles: Seq<Seq<Token>> },
    Flag(Seq<char>),
}

impl View for MacroParam {
    type V = ParamView;

    open spec fn view(&self) -> ParamView {
        match self {
            MacroParam::RoleList { name, roles } => ParamView::RoleList {
                name: name@,
                roles: all_tokens(roles@),
            },
            MacroParam::Flag(name) => ParamView::Flag(name@),
        }
    }
}

/// Arguments by their values.
pub open spec fn params_of(params: Seq<MacroParam>) -> Seq<ParamView> {
    params.map_values(|param: MacroParam| param@)
}

/// Tokens with what groups without delimiters hold in the place of the groups. A macro hands on
/// what it has matched in such groups, and one that holds nothing counts only at the end, where
/// it is `kept`: there something is still to be read.
pub open spec fn opened(tokens: Seq<Token>, kept: bool) -> Seq<Token>
    decreases tokens,
{
    if tokens.len() == 0 {
        Seq::empty()
    } else {
        let rest = opened(tokens.subrange(1, tokens.len() as int), kept);
        match tokens[0] {
            Token::Group(Delimiter::Invisible, contents) => if kept && tokens.len() == 1
                && contents.len() == 0 {
                tokens
            } else {
                proof {
                    assert(decreases_to!(tokens => tokens[0]));
                    assert(decreases_to!(tokens[0] => tokens[0]->Group_1));
                }
                opened(contents, kept && tokens.len() == 1) + rest
            },
            token => seq![token] + rest,
        }
    }
}

/// One token with what it holds in its place, where it is a group without delimiters. One that holds
/// nothing counts where it is `kept`.
pub open spec fn opened_token(token: Token, kept: bool) -> Seq<Token> {
    match token {
        Token::Group(Delimiter::Invisible, contents) => if kept && contents.len() == 0 {
            seq![token]
        } else {
            opened(contents, kept)
        },
        _ => seq![token],
    }
}

/// Tokens open one by one, and only the last of them can be kept.
proof fn lemma_opened_step(tokens: Seq<Token>, kept: bool)
    requires
        tokens.len() > 0,
    ensures
        opened(tokens, kept) == opened_token(tokens[0], kept && tokens.len() == 1) + opened(
            tokens.subrange(1, tokens.len() as int),
            kept,
        ),
{
    if tokens.len() == 1 {
        assert(opened(tokens.subrange(1, 1), kept) =~= Seq::empty());
        assert(seq![tokens[0]] + Seq::<Token>::empty() =~= tokens);
    }
}

/// Whether each piece has a stream of the token that it stands for.
spec fn streams_match(pieces: Seq<Piece>) -> bool {
    forall|i: int|
        0 <= i < pieces.len() ==> tokens_of((#[trigger] pieces[i]).stream) == seq![pieces[i].shape@]
}

/// Opens one token.
fn open_piece(piece: Piece, kept: bool) -> (pieces: Vec<Piece>)
    requires
        tokens_of(piece.stream) == seq![piece.shape@],
    ensures
        pieces_of(pieces@) == opened_token(piece.shape@, kept),
        streams_match(pieces@),
    decreases piece.shape@,
{
    if let Shape::Group(Delimiter::Invisible, contents) = &piece.shape {
        if !(kept && contents.is_empty()) {
            assert(decreases_to!(piece.shape@ => piece.shape@->Group_1));
            return read_opened(contents, kept);
        }
    }
    let mut pieces: Vec<Piece> = Vec::new();
    pieces.push(piece);
    assert(pieces_of(pieces@) =~= opened_token(piece.shape@, kept));
    pieces
}

/// Reads the tokens of a stream, with what groups without delimiters hold in the place of the
/// groups.
fn read_opened(stream: &TokenStream, kept: bool) -> (pieces: Vec<Piece>)
    ensures
        pieces_of(pieces@) == opened(tokens_of(*stream), kept),
        streams_match(pieces@),
    decreases tokens_of(*stream),
{
    let mut source = read_tokens(stream);
    let ghost all = tokens_of(*stream);
    let ghost mut rest = all;
    let mut pieces: Vec<Piece> = Vec::new();
    assert(pieces_of(pieces@) + opened(all, kept) =~= opened(all, kept));
    while source.len() > 0
        invariant
            all == tokens_of(*stream),
            rest == pieces_of(source@),
            rest.len() <= all.len(),
            rest == all.subrange(all.len() - rest.len(), all.len() as int),
            streams_match(source@),
            streams_match(pieces@),
            pieces_of(pieces@) + opened(rest, kept) == opened(all, kept),
        decreases source@.len(),
    {
        let ghost before = pieces@;
        let ghost left = source@;
        let is_last: bool = source.len() == 1;
        let piece = source.remove(0);
        let ghost token = rest[0];
        let ghost next = rest.subrange(1, rest.len() as int);
        proof {
            assert(token == left[0].shape@ && token == all[all.len() - rest.len()]);
            assert(next =~= all.subrange(all.len() - next.len(), all.len() as int));
            assert(next =~= pieces_of(source@));
            assert forall|i: int| 0 <= i < source@.len() implies tokens_of(
                (#[trigger] source@[i]).stream,
            ) == seq![source@[i].shape@] by {
                assert(source@[i] == left[i + 1]);
            }
            assert(decreases_to!(all => all[all.len() - rest.len()]));
            lemma_opened_step(rest, kept);
        }
        let mut opened_pieces = open_piece(piece, kept && is_last);
        let ghost added = opened_pieces@;
        pieces.append(&mut opened_pieces);
        proof {
            assert(pieces@ =~= before + added);
            assert(pieces_of(pieces@) =~= pieces_of(before) + pieces_of(added));
            assert(pieces_of(pieces@) + opened(next, kept) =~= pieces_of(before) + opened(
                rest,
                kept,
            ));
            rest = next;
        }
    }
    assert(pieces_of(pieces@) + opened(rest, kept) =~= pieces_of(pieces@));
    pieces
}

/// The argument with which tokens begin, how many of them it takes, and the message of a fault that
/// is put off: an identifier, and with it what stands in parentheses right behind.
pub open spec fn leading_param(tokens: Seq<Token>) -> Result<
    (ParamView, int, Option<Seq<char>>),
    Seq<char>,
> {
    match syn_identifier(seq![tokens[0]]) {
        Err(message) => Err(message),
        Ok(name) => match role_tokens(tokens) {
            None => Ok((ParamView::Flag(name), 1, None)),
            Some(contents) => match syn_expressions(contents) {
                Err(message) => Err(message),
                Ok(read) => Ok((ParamView::RoleList { name, roles: read.list }, 2, read.leftover)),
            },
        },
    }
}

/// What stands in parentheses behind the first token.
pub open spec fn role_tokens(tokens: Seq<Token>) -> Option<Seq<Token>> {
    if tokens.len() < 2 {
        None
    } else {
        match tokens[1] {
            Token::Group(Delimiter::Parenthesis, contents) => Some(contents),
            _ => None,
        }
    }
}

/// Whether a token is a comma.
pub open spec fn is_comma(token: Token) -> bool {
    token matches Token::Punct(c, _) && c == ','
}

/// Arguments that have been read, and the message of the first fault that was put off.
pub struct ReadView {
    pub params: Seq<ParamView>,
    pub leftover: Option<Seq<char>>,
}

/// The first of two faults, where there is one.
pub open spec fn first_of(first: Option<Seq<char>>, second: Option<Seq<char>>) -> Option<Seq<char>> {
    match first {
        Some(message) => Some(message),
        None => second,
    }
}

/// The arguments that tokens without groups to look into hold: one after the other with commas
/// between them, and one more comma at the end where that is wanted.
pub open spec fn params_in(tokens: Seq<Token>) -> Result<ReadView, Seq<char>>
    decreases tokens.len(),
{
    if tokens.len() == 0 {
        Ok(ReadView { params: Seq::empty(), leftover: None })
    } else {
        match leading_param(tokens) {
            Err(message) => Err(message),
            Ok((param, used, leftover)) => if tokens.len() <= used {
                Ok(ReadView { params: seq![param], leftover })
            } else if is_comma(tokens[used]) {
                continued(
                    ReadView { params: seq![param], leftover },
                    params_in(tokens.skip(used + 1)),
                )
            } else {
                Err("expected `,`"@)
            },
        }
    }
}

/// The arguments that tokens hold. Groups without delimiters are looked into.
pub open spec fn read_params(tokens: Seq<Token>) -> Result<ReadView, Seq<char>> {
    params_in(opened(tokens, true))
}

/// What has been read so far, and then what the rest of the tokens holds.
pub open spec fn continued(done: ReadView, rest: Result<ReadView, Seq<char>>) -> Result<
    ReadView,
    Seq<char>,
> {
    match rest {
        Ok(more) => Ok(
            ReadView {
                params: done.params + more.params,
                leftover: first_of(done.leftover, more.leftover),
            },
        ),
        Err(message) => Err(message),
    }
}

/// Reading on twice is reading on with both.
proof fn lemma_continued(done: ReadView, next: ReadView, rest: Result<ReadView, Seq<char>>)
    ensures
        continued(done, continued(next, rest)) == continued(
            ReadView {
                params: done.params + next.params,
                leftover: first_of(done.leftover, next.leftover),
            },
            rest,
        ),
{
    if let Ok(more) = rest {
        assert(done.params + (next.params + more.params) =~= done.params + next.params
            + more.params);
    }
}

/// Arguments that have been read, and the first fault that was put off: it counts once nothing else
/// is wrong.
pub struct ReadParams {
    pub params: Vec<MacroParam>,
    pub leftover: Option<Fault>,
}

impl View for ReadParams {
    type V = ReadView;

    open spec fn view(&self) -> ReadView {
        ReadView { params: params_of(self.params@), leftover: message_of(self.leftover) }
    }
}

/// Reads the arguments that a stream holds.
pub fn parse_params(args: &TokenStream) -> (parsed: Result<ReadParams, Fault>)
    ensures
        parse_of(parsed) == read_params(tokens_of(*args)),
        reports(parsed),
        parsed matches Ok(read) ==> reports_later(read.leftover),
{
    let pieces = read_opened(args, true);
    let ghost all = opened(tokens_of(*args), true);
    let n: usize = pieces.len();
    let mut read = ReadParams { params: Vec::new(), leftover: None };
    let mut i: usize = 0;
    assert(all.skip(0) =~= all);
    assert(params_of(read.params@) =~= Seq::empty());
    proof {
        if let Ok(more) = params_in(all) {
            assert(read@.params + more.params =~= more.params);
        }
    }
    while i < n
        invariant
            i <= n,
            n == pieces@.len() == all.len(),
            all == pieces_of(pieces@),
            forall|k: int|
                0 <= k < pieces@.len() ==> tokens_of((#[trigger] pieces@[k]).stream)
                    == seq![pieces@[k].shape@],
            params_in(all) == continued(read@, params_in(all.skip(i as int))),
            all == opened(tokens_of(*args), true),
            reports_later(read.leftover),
        decreases n - i,
    {
        let ghost rest = all.skip(i as int);
        let ghost before = read@;
        assert(rest[0] == pieces@[i as int].shape@);
        assert(rest.len() == n - i);
        let name = match parse_identifier(&pieces[i].stream) {
            Ok(text) => Name { text, place: pieces[i].stream.clone() },
            Err(fault) => return Err(fault),
        };
        assert(syn_identifier(seq![rest[0]]) == Ok::<Seq<char>, Seq<char>>(name@));
        let mut roles: Option<Expressions> = None;
        if i + 1 < n {
            assert(rest[1] == pieces@[i + 1].shape@);
            if let Shape::Group(Delimiter::Parenthesis, contents) = &pieces[i + 1].shape {
                match parse_expressions(contents) {
                    Ok(list) => {
                        roles = Some(list);
                    },
                    Err(fault) => return Err(fault),
                }
            }
        }
        let used: usize = if roles.is_some() {
            2
        } else {
            1
        };
        let (param, leftover) = match roles {
            Some(roles) => (MacroParam::RoleList { name, roles: roles.list }, roles.leftover),
            None => (MacroParam::Flag(name), None),
        };
        let ghost value = param@;
        let ghost next = ReadView { params: seq![value], leftover: message_of(leftover) };
        assert(leading_param(rest) == Ok::<(ParamView, int, Option<Seq<char>>), Seq<char>>(
            (value, used as int, next.leftover),
        ));
        read.params.push(param);
        if read.leftover.is_none() {
            read.leftover = leftover;
        }
        assert(read@.params =~= before.params + seq![value]);
        assert(read@.leftover == first_of(before.leftover, next.leftover));
        i = i + used;
        if i == n {
            assert(continued(before, Ok(next)) == Ok::<ReadView, Seq<char>>(read@));
            return Ok(read);
        }
        assert(rest[used as int] == pieces@[i as int].shape@);
        let is_separator = match &pieces[i].shape {
            Shape::Punct(c, _) => *c == ',',
            _ => false,
        };
        if !is_separator {
            return Err(fault_at("expected `,`", &pieces[i].stream));
        }
        i = i + 1;
        assert(rest.skip(used + 1) =~= all.skip(i as int));
        proof {
            lemma_continued(before, next, params_in(all.skip(i as int)));
        }
    }
    assert(all.skip(n as int) =~= Seq::empty());
    assert(read@.params + Seq::<ParamView>::empty() =~= read@.params);
    Ok(read)
}

/// The roles of the last list of that name.
pub open spec fn list_named(params: Seq<ParamView>, name: Seq<char>) -> Option<Seq<Seq<Token>>>
    decreases params.len(),
{
    if params.len() == 0 {
        None
    } else {
        match params.last() {
            ParamView::RoleList { name: last_name, roles } => if last_name == name {
                Some(roles)
            } else {
                list_named(params.drop_last(), name)
            },
            ParamView::Flag(_) => list_named(params.drop_last(), name),
        }
    }
}

/// Whether the flag of that name is among the arguments.
pub open spec fn flagged(params: Seq<ParamView>, name: Seq<char>) -> bool {
    exists|i: int| 0 <= i < params.len() && #[trigger] params[i] == ParamView::Flag(name)
}

/// The names that a list of roles can have.
pub open spec fn is_list_name(name: Seq<char>) -> bool {
    name == "bypass_roles"@ || name == "manager_roles"@ || name == "config_roles"@
}

/// What is said of a list of an unknown name.
pub open spec fn unknown_parameter(name: Seq<char>) -> Seq<char> {
    "unknown parameter `"@ + name
        + "`, expected `bypass_roles`, `manager_roles`, `config_roles`, or `custom_is_trusted_relayer`"@
}

/// What is said of a flag of an unknown name.
pub open spec fn unknown_flag(name: Seq<char>) -> Seq<char> {
    "unknown flag `"@ + name + "`, expected `custom_is_trusted_relayer`"@
}

/// What is said of a second list of one name.
pub open spec fn duplicate_list(name: Seq<char>) -> Seq<char> {
    "duplicate `"@ + name + "`"@
}

/// What is wrong with an argument, given those before it.
pub open spec fn fault(params: Seq<ParamView>, i: int) -> Option<Seq<char>> {
    match params[i] {
        ParamView::RoleList { name, .. } => if !is_list_name(name) {
            Some(unknown_parameter(name))
        } else if list_named(params.take(i), name) is Some {
            Some(duplicate_list(name))
        } else {
            None
        },
        ParamView::Flag(name) => if name == "custom_is_trusted_relayer"@ {
            None
        } else {
            Some(unknown_flag(name))
        },
    }
}

/// The first fault among the arguments from place `from` on.
pub open spec fn first_fault(params: Seq<ParamView>, from: int) -> Option<Seq<char>>
    decreases params.len() - from,
{
    if from >= params.len() {
        None
    } else {
        match fault(params, from) {
            Some(message) => Some(message),
            None => first_fault(params, from + 1),
        }
    }
}

/// The arguments of an impl block with relayers.
pub struct TrustedRelayerImplArgs {
    /// The roles whose holders need no stake, where there are such.
    pub bypass_roles: Option<Vec<TokenStream>>,
    /// The roles that may reject relayers.
    pub manager_roles: Vec<TokenStream>,
    /// The roles that may set the configuration: the managers, unless others are named.
    pub config_roles: Vec<TokenStream>,
    /// Whether the contract decides by itself who is trusted.
    pub custom_is_trusted_relayer: bool,
}

/// The arguments with their roles by their tokens.
pub struct ArgsView {
    pub bypass_roles: Option<Seq<Seq<Token>>>,
    pub manager_roles: Seq<Seq<Token>>,
    pub config_roles: Seq<Seq<Token>>,
    pub custom_is_trusted_relayer: bool,
}

/// A list of roles that may not be there, by its tokens.
pub open spec fn roles_of(roles: Option<Vec<TokenStream>>) -> Option<Seq<Seq<Token>>> {
    match roles {
        Some(roles) => Some(all_tokens(roles@)),
        None => None,
    }
}

impl View for TrustedRelayerImplArgs {
    type V = ArgsView;

    open spec fn view(&self) -> ArgsView {
        ArgsView {
            bypass_roles: roles_of(self.bypass_roles),
            manager_roles: all_tokens(self.manager_roles@),
            config_roles: all_tokens(self.config_roles@),
            custom_is_trusted_relayer: self.custom_is_trusted_relayer,
        }
    }
}

/// The arguments that make up a valid set: each list at most once, the managers always, and
/// not both a bypass and a decision of the contract's own.
pub open spec fn collected(params: Seq<ParamView>) -> Result<ArgsView, Seq<char>> {
    match first_fault(params, 0) {
        Some(message) => Err(message),
        None => match list_named(params, "manager_roles"@) {
            None => Err(
                "`manager_roles(...)` is required for `#[trusted_relayer]` on impl blocks"@,
            ),
            Some(manager_roles) => {
                let bypass_roles = list_named(params, "bypass_roles"@);
                let custom = flagged(params, "custom_is_trusted_relayer"@);
                if custom && bypass_roles is Some {
                    Err("`custom_is_trusted_relayer` and `bypass_roles` are mutually exclusive"@)
                } else {
                    Ok(
                        ArgsView {
                            bypass_roles,
                            manager_roles,
                            config_roles: match list_named(params, "config_roles"@) {
                                Some(roles) => roles,
                                None => manager_roles,
                            },
                            custom_is_trusted_relayer: custom,
                        },
                    )
                }
            },
        },
    }
}

/// Arguments by their values, or the message of the fault.
pub open spec fn args_of(parsed: Result<TrustedRelayerImplArgs, Fault>) -> Result<
    ArgsView,
    Seq<char>,
> {
    match parsed {
        Ok(args) => Ok(args@),
        Err(fault) => Err(fault@),
    }
}

/// A copy of a list of streams.
pub(crate) fn copied(list: &Vec<TokenStream>) -> (copy: Vec<TokenStream>)
    ensures
        all_tokens(copy@) == all_tokens(list@),
{
    let mut copy: Vec<TokenStream> = Vec::new();
    let n: usize = list.len();
    for i in 0..n
        invariant
            n == list@.len(),
            all_tokens(copy@) =~= all_tokens(list@).take(i as int),
    {
        let ghost before = copy@;
        copy.push(list[i].clone());
        assert(all_tokens(copy@) =~= all_tokens(before).push(tokens_of(list@[i as int])));
    }
    assert(all_tokens(list@).take(n as int) =~= all_tokens(list@));
    copy
}

/// A fault in the place of a name, with the name between two pieces of the message.
fn fault_around(front: &str, name: &Name, back: &str) -> (fault: Fault)
    ensures
        fault@ == front@ + name@ + back@,
        reports(Err::<(), Fault>(fault)),
{
    let mut message = front.to_owned();
    message.append(name.text.as_str());
    message.append(back);
    fault_at(message.as_str(), &name.place)
}

/// Puts arguments together, or says what is wrong with them.
pub fn collect_args(params: &Vec<MacroParam>) -> (parsed: Result<TrustedRelayerImplArgs, Fault>)
    ensures
        args_of(parsed) == collected(params_of(params@)),
        reports(parsed),
{
    let mut bypass_roles: Option<Vec<TokenStream>> = None;
    let mut manager_roles: Option<Vec<TokenStream>> = None;
    let mut config_roles: Option<Vec<TokenStream>> = None;
    let mut custom: bool = false;
    let n: usize = params.len();
    let ghost all = params_of(params@);
    for i in 0..n
        invariant
            n == params@.len() == all.len(),
            all == params_of(params@),
            first_fault(all, 0) == first_fault(all, i as int),
            roles_of(bypass_roles) == list_named(all.take(i as int), "bypass_roles"@),
            roles_of(manager_roles) == list_named(all.take(i as int), "manager_roles"@),
            roles_of(config_roles) == list_named(all.take(i as int), "config_roles"@),
            custom == flagged(all.take(i as int), "custom_is_trusted_relayer"@),
    {
        let ghost done = all.take(i as int);
        let ghost next = all.take(i + 1);
        assert(next.drop_last() =~= done);
        assert(next.last() == params@[i as int]@);
        assert(all[i as int] == params@[i as int]@);
        proof {
            reveal_strlit("bypass_roles");
            reveal_strlit("manager_roles");
            reveal_strlit("config_roles");
            assert("bypass_roles"@[0] == 'b');
            assert("manager_roles"@[0] == 'm');
            assert("config_roles"@[0] == 'c');
            lemma_flagged_step(all, i as int, "custom_is_trusted_relayer"@);
        }
        match &params[i] {
            MacroParam::RoleList { name, roles } => {
                if *name.text.as_str() == *"bypass_roles" {
                    if bypass_roles.is_some() {
                        return Err(fault_around("duplicate `", name, "`"));
                    }
                    bypass_roles = Some(copied(roles));
                } else if *name.text.as_str() == *"manager_roles" {
                    if manager_roles.is_some() {
                        return Err(fault_around("duplicate `", name, "`"));
                    }
                    manager_roles = Some(copied(roles));
                } else if *name.text.as_str() == *"config_roles" {
                    if config_roles.is_some() {
                        return Err(fault_around("duplicate `", name, "`"));
                    }
                    config_roles = Some(copied(roles));
                } else {
                    return Err(
                        fault_around(
                            "unknown parameter `",
                            name,
                            "`, expected `bypass_roles`, `manager_roles`, `config_roles`, or `custom_is_trusted_relayer`",
                        ),
                    );
                }
            },
            MacroParam::Flag(name) => {
                if *name.text.as_str() == *"custom_is_trusted_relayer" {
                    custom = true;
                } else {
                    return Err(
                        fault_around(
                            "unknown flag `",
                            name,
                            "`, expected `custom_is_trusted_relayer`",
                        ),
                    );
                }
            },
        }
    }
    assert(all.take(n as int) =~= all);
    let manager_roles = match manager_roles {
        Some(roles) => roles,
        None => return Err(
            fault_at(
                "`manager_roles(...)` is required for `#[trusted_relayer]` on impl blocks",
                &TokenStream::new(),
            ),
        ),
    };
    if custom && bypass_roles.is_some() {
        return Err(
            fault_at(
                "`custom_is_trusted_relayer` and `bypass_roles` are mutually exclusive",
                &TokenStream::new(),
            ),
        );
    }
    let config_roles = match config_roles {
        Some(roles) => roles,
        None => copied(&manager_roles),
    };
    Ok(
        TrustedRelayerImplArgs {
            bypass_roles,
            manager_roles,
            config_roles,
            custom_is_trusted_relayer: custom,
        },
    )
}

/// Whether a flag is among one argument more.
proof fn lemma_flagged_step(params: Seq<ParamView>, i: int, name: Seq<char>)
    requires
        0 <= i < params.len(),
    ensures
        flagged(params.take(i + 1), name) == (flagged(params.take(i), name) || params[i]
            == ParamView::Flag(name)),
{
    let next = params.take(i + 1);
    let done = params.take(i);
    if params[i] == ParamView::Flag(name) {
        assert(next[i] == ParamView::Flag(name));
    }
    if flagged(done, name) {
        let k = choose|k: int| 0 <= k < done.len() && #[trigger] done[k] == ParamView::Flag(name);
        assert(next[k] == ParamView::Flag(name));
    }
    if flagged(next, name) && params[i] != ParamView::Flag(name) {
        let k = choose|k: int| 0 <= k < next.len() && #[trigger] next[k] == ParamView::Flag(name);
        assert(done[k] == ParamView::Flag(name));
    }
}

/// Whether the argument at a place is a list of that name.
pub open spec fn is_list(params: Seq<ParamView>, i: int, name: Seq<char>) -> bool {
    params[i] matches ParamView::RoleList { name: list_name, .. } && list_name == name
}

/// A list that is found is one of the arguments, and one that is not found is none of them.
proof fn lemma_list_named(params: Seq<ParamView>, name: Seq<char>)
    ensures
        match list_named(params, name) {
            Some(roles) => exists|i: int|
                0 <= i < params.len() && #[trigger] is_list(params, i, name) && params[i] == (
                ParamView::RoleList { name, roles }),
            None => forall|i: int| 0 <= i < params.len() ==> !#[trigger] is_list(params, i, name),
        },
    decreases params.len(),
{
    if params.len() > 0 {
        let rest = params.drop_last();
        let last = params.len() - 1;
        lemma_list_named(rest, name);
        assert(forall|i: int| 0 <= i < rest.len() ==> rest[i] == params[i]);
        if !is_list(params, last, name) {
            assert(list_named(params, name) == list_named(rest, name));
            match list_named(params, name) {
                Some(roles) => {
                    let i = choose|i: int|
                        0 <= i < rest.len() && #[trigger] is_list(rest, i, name) && rest[i] == (
                        ParamView::RoleList { name, roles });
                    assert(is_list(params, i, name));
                },
                None => {
                    assert forall|i: int| 0 <= i < params.len() implies !#[trigger] is_list(
                        params,
                        i,
                        name,
                    ) by {
                        if i < last {
                            assert(!is_list(rest, i, name));
                        }
                    }
                },
            }
        }
    }
}

/// Whether arguments are free of faults: every name is known, and no list comes twice.
pub open spec fn faultless(params: Seq<ParamView>) -> bool {
    &&& forall|i: int|
        0 <= i < params.len() ==> match #[trigger] params[i] {
            ParamView::RoleList { name, .. } => is_list_name(name),
            ParamView::Flag(name) => name == "custom_is_trusted_relayer"@,
        }
    &&& forall|i: int, j: int, name: Seq<char>|
        0 <= i < params.len() && 0 <= j < params.len() && #[trigger] is_list(params, i, name)
            && #[trigger] is_list(params, j, name) ==> i == j
}

/// No fault is found from a place on exactly where no argument from there on has one.
proof fn lemma_first_fault(params: Seq<ParamView>, from: int)
    requires
        0 <= from <= params.len(),
    ensures
        first_fault(params, from) is None <==> forall|i: int|
            from <= i < params.len() ==> #[trigger] fault(params, i) is None,
    decreases params.len() - from,
{
    if from < params.len() {
        lemma_first_fault(params, from + 1);
        if first_fault(params, from) is None {
            assert forall|i: int| from <= i < params.len() implies #[trigger] fault(
                params,
                i,
            ) is None by {
                if i > from {
                    assert(from + 1 <= i);
                }
            }
        }
    }
}

/// Arguments are accepted by name exactly where they are free of faults.
pub proof fn law_faultless(params: Seq<ParamView>)
    ensures
        first_fault(params, 0) is None <==> faultless(params),
{
    lemma_first_fault(params, 0);
    assert forall|i: int, name: Seq<char>| 0 <= i < params.len() implies (#[trigger] list_named(
        params.take(i),
        name,
    ) is None <==> forall|j: int| 0 <= j < i ==> !#[trigger] is_list(params, j, name)) by {
        lemma_list_named(params.take(i), name);
        if list_named(params.take(i), name) is None {
            assert forall|j: int| 0 <= j < i implies !#[trigger] is_list(params, j, name) by {
                assert(!is_list(params.take(i), j, name));
            }
        } else {
            let j = choose|j: int| 0 <= j < i && #[trigger] is_list(params.take(i), j, name);
            assert(is_list(params, j, name));
        }
    }
    if first_fault(params, 0) is None {
        assert forall|i: int| 0 <= i < params.len() implies match #[trigger] params[i] {
            ParamView::RoleList { name, .. } => is_list_name(name),
            ParamView::Flag(name) => name == "custom_is_trusted_relayer"@,
        } by {
            assert(fault(params, i) is None);
        }
        assert forall|i: int, j: int, name: Seq<char>|
            0 <= i < params.len() && 0 <= j < params.len() && #[trigger] is_list(params, i, name)
                && #[trigger] is_list(params, j, name) implies i == j by {
            assert(fault(params, i) is None && fault(params, j) is None);
            if i < j {
                assert(list_named(params.take(j), name) is None);
            } else if j < i {
                assert(list_named(params.take(i), name) is None);
            }
        }
    }
    if faultless(params) {
        assert forall|i: int| 0 <= i < params.len() implies #[trigger] fault(params, i) is None by {
            if let ParamView::RoleList { name, .. } = params[i] {
                assert(is_list(params, i, name));
                assert(forall|j: int| 0 <= j < i ==> !#[trigger] is_list(params, j, name));
                assert(list_named(params.take(i), name) is None);
            }
        }
    }
}

/// Arguments with two of them swapped.
pub open spec fn swapped(params: Seq<ParamView>, i: int, j: int) -> Seq<ParamView> {
    params.update(i, params[j]).update(j, params[i])
}

/// Arguments that are accepted are accepted with any two of them swapped too, and mean the same.
proof fn lemma_swapped(params: Seq<ParamView>, i: int, j: int)
    requires
        0 <= i < params.len(),
        0 <= j < params.len(),
        collected(params) is Ok,
    ensures
        collected(swapped(params, i, j)) == collected(params),
{
    let other = swapped(params, i, j);
    let from = |k: int| if k == i { j } else if k == j { i } else { k };
    assert(forall|k: int| 0 <= k < params.len() ==> #[trigger] other[k] == params[from(k)]);
    assert(forall|k: int| 0 <= k < params.len() ==> #[trigger] params[k] == other[from(k)]);
    law_faultless(params);
    law_faultless(other);
    assert(faultless(other)) by {
        assert forall|a: int, b: int, name: Seq<char>|
            0 <= a < other.len() && 0 <= b < other.len() && #[trigger] is_list(other, a, name)
                && #[trigger] is_list(other, b, name) implies a == b by {
            assert(is_list(params, from(a), name) && is_list(params, from(b), name));
        }
        assert forall|k: int| 0 <= k < other.len() implies match #[trigger] other[k] {
            ParamView::RoleList { name, .. } => is_list_name(name),
            ParamView::Flag(name) => name == "custom_is_trusted_relayer"@,
        } by {
            assert(other[k] == params[from(k)]);
        }
    }
    assert forall|name: Seq<char>| #[trigger] list_named(other, name) == list_named(
        params,
        name,
    ) by {
        lemma_list_named(params, name);
        lemma_list_named(other, name);
        match list_named(params, name) {
            Some(roles) => {
                let k = choose|k: int|
                    0 <= k < params.len() && #[trigger] is_list(params, k, name) && params[k] == (
                    ParamView::RoleList { name, roles });
                assert(is_list(other, from(k), name));
                match list_named(other, name) {
                    Some(found) => {
                        let m = choose|m: int|
                            0 <= m < other.len() && #[trigger] is_list(other, m, name) && other[m]
                                == (ParamView::RoleList { name, roles: found });
                        assert(is_list(other, m, name));
                        assert(m == from(k));
                    },
                    None => {},
                }
            },
            None => {
                if list_named(other, name) is Some {
                    let m = choose|m: int| 0 <= m < other.len() && #[trigger] is_list(other, m, name);
                    assert(is_list(params, from(m), name));
                }
            },
        }
    }
    let flag = "custom_is_trusted_relayer"@;
    if flagged(params, flag) {
        let k = choose|k: int| 0 <= k < params.len() && #[trigger] params[k] == ParamView::Flag(flag);
        assert(other[from(k)] == ParamView::Flag(flag));
    }
    if flagged(other, flag) {
        let k = choose|k: int| 0 <= k < other.len() && #[trigger] other[k] == ParamView::Flag(flag);
        assert(params[from(k)] == ParamView::Flag(flag));
    }
}

/// Swapping two arguments keeps the same arguments, each as often.
proof fn lemma_swap_keeps_all(params: Seq<ParamView>, i: int, j: int)
    requires
        0 <= i < params.len(),
        0 <= j < params.len(),
    ensures
        swapped(params, i, j).to_multiset() == params.to_multiset(),
{
    broadcast use vstd::seq_lib::group_to_multiset_ensures;

    assert(params.contains(params[i]) && params.contains(params[j]));
    let once = params.update(i, params[j]);
    assert(once[i] == params[j]);
    assert(once.contains(once[j]));
    vstd::seq_lib::to_multiset_update(params, i, params[j]);
    vstd::seq_lib::to_multiset_update(once, j, params[i]);
    assert(swapped(params, i, j).to_multiset() =~= params.to_multiset());
}

/// Arguments that are accepted are accepted where they are rearranged up to place `n`, and mean the
/// same.
proof fn lemma_rearranged(params: Seq<ParamView>, other: Seq<ParamView>, n: int)
    requires
        collected(params) is Ok,
        other.to_multiset() == params.to_multiset(),
        0 <= n <= params.len(),
        n <= other.len(),
        params.skip(n) == other.skip(n),
    ensures
        collected(other) == collected(params),
    decreases n,
{
    broadcast use vstd::seq_lib::group_to_multiset_ensures;

    assert(params =~= params.take(n) + params.skip(n));
    assert(other =~= other.take(n) + other.skip(n));
    if n == 0 {
        assert(params =~= other);
    } else {
        vstd::seq_lib::lemma_multiset_commutative(params.take(n), params.skip(n));
        vstd::seq_lib::lemma_multiset_commutative(other.take(n), other.skip(n));
        let wanted = other[n - 1];
        assert(other.take(n)[n - 1] == wanted);
        assert(other.take(n).contains(wanted));
        let both = params.to_multiset();
        let tail = params.skip(n).to_multiset();
        assert(params.take(n).to_multiset().count(wanted) + tail.count(wanted) == both.count(wanted));
        assert(other.take(n).to_multiset().count(wanted) + tail.count(wanted) == both.count(wanted));
        assert(params.take(n).contains(wanted));
        let k = choose|k: int| 0 <= k < n && params.take(n)[k] == wanted;
        assert(params[k] == wanted);
        let next = swapped(params, k, n - 1);
        lemma_swapped(params, k, n - 1);
        lemma_swap_keeps_all(params, k, n - 1);
        assert(next.skip(n - 1) =~= other.skip(n - 1)) by {
            assert forall|m: int| n <= m < params.len() implies next[m] == other[m] by {
                assert(params.skip(n)[m - n] == other.skip(n)[m - n]);
            }
            assert(params.skip(n).len() == other.skip(n).len());
        }
        lemma_rearranged(next, other, n - 1);
    }
}

/// The order of the arguments does not matter: where they are accepted, they are accepted in any
/// other order too, and mean the same.
pub proof fn law_order_does_not_matter(params: Seq<ParamView>, other: Seq<ParamView>)
    requires
        collected(params) is Ok,
        other.to_multiset() == params.to_multiset(),
    ensures
        collected(other) == collected(params),
{
    broadcast use vstd::seq_lib::group_to_multiset_ensures;

    assert(params.to_multiset().len() == params.len());
    assert(other.to_multiset().len() == other.len());
    assert(params.skip(params.len() as int) =~= other.skip(params.len() as int));
    lemma_rearranged(params, other, params.len() as int);
}

/// A flag that is given once more means the same.
pub proof fn law_flag_may_repeat(params: Seq<ParamView>)
    requires
        flagged(params, "custom_is_trusted_relayer"@),
        collected(params) is Ok,
    ensures
        collected(params.push(ParamView::Flag("custom_is_trusted_relayer"@))) == collected(params),
{
    let flag = "custom_is_trusted_relayer"@;
    let more = params.push(ParamView::Flag(flag));
    assert(more.drop_last() =~= params);
    assert(more.take(params.len() as int) =~= params);
    lemma_flagged_step(more, params.len() as int, flag);
    assert(more.take(more.len() as int) =~= more);
    law_faultless(params);
    law_faultless(more);
    assert(faultless(more)) by {
        assert forall|i: int, j: int, name: Seq<char>|
            0 <= i < more.len() && 0 <= j < more.len() && #[trigger] is_list(more, i, name)
                && #[trigger] is_list(more, j, name) implies i == j by {
            assert(is_list(params, i, name) && is_list(params, j, name));
        }
        assert forall|i: int| 0 <= i < more.len() implies match #[trigger] more[i] {
            ParamView::RoleList { name, .. } => is_list_name(name),
            ParamView::Flag(name) => name == flag,
        } by {
            if i < params.len() {
                assert(more[i] == params[i]);
            }
        }
    }
}

/// One more comma at the end of arguments changes nothing, neither where they can be read nor where
/// they cannot.
pub proof fn law_trailing_comma(tokens: Seq<Token>, comma: Token)
    requires
        tokens.len() > 0,
        !is_comma(tokens.last()),
        is_comma(comma),
    ensures
        params_in(tokens.push(comma)) == params_in(tokens),
    decreases tokens.len(),
{
    let more = tokens.push(comma);
    assert(more[0] == tokens[0]);
    assert(role_tokens(more) == role_tokens(tokens)) by {
        if tokens.len() >= 2 {
            assert(more[1] == tokens[1]);
        }
    }
    assert(leading_param(more) == leading_param(tokens));
    if let Ok((param, used, leftover)) = leading_param(tokens) {
        let first = ReadView { params: seq![param], leftover };
        if tokens.len() <= used {
            assert(tokens.len() == used);
            assert(more[used] == comma);
            assert(more.skip(used + 1) =~= Seq::empty());
            assert(params_in(more) == continued(first, params_in(Seq::empty())));
            assert(first.params + Seq::<ParamView>::empty() =~= first.params);
        } else {
            assert(more[used] == tokens[used]);
            if is_comma(tokens[used]) {
                let rest = tokens.skip(used + 1);
                assert(used < tokens.len() - 1);
                assert(rest.last() == tokens.last());
                assert(more.skip(used + 1) =~= rest.push(comma));
                law_trailing_comma(rest, comma);
                assert(params_in(more) == continued(first, params_in(rest)));
            }
        }
    }
}

/// Arguments that are accepted name the managers, and never both a bypass and a decision of
/// the contract's own; the configuration is for the managers unless others are named.
pub proof fn law_accepted_args(params: Seq<ParamView>)
    requires
        collected(params) is Ok,
    ensures
        ({
            let args = collected(params)->Ok_0;
            &&& list_named(params, "manager_roles"@) == Some(args.manager_roles)
            &&& !(args.custom_is_trusted_relayer && args.bypass_roles is Some)
            &&& list_named(params, "config_roles"@) is None ==> args.config_roles
                == args.manager_roles
        }),
{
}

/// The arguments that tokens hold, where they make up a valid set. A fault that was put off comes
/// behind any other.
pub open spec fn read_args(tokens: Seq<Token>) -> Result<ArgsView, Seq<char>> {
    match read_params(tokens) {
        Ok(read) => match (collected(read.params), read.leftover) {
            (Ok(_), Some(message)) => Err(message),
            (outcome, _) => outcome,
        },
        Err(message) => Err(message),
    }
}

impl TrustedRelayerImplArgs {
    /// Reads the arguments of an impl block.
    pub fn parse(args: &TokenStream) -> (parsed: Result<TrustedRelayerImplArgs, Fault>)
        ensures
            args_of(parsed) == read_args(tokens_of(*args)),
            reports(parsed),
    {
        let read = match parse_params(args) {
            Ok(read) => read,
            Err(fault) => return Err(fault),
        };
        match (collect_args(&read.params), read.leftover) {
            (Ok(_), Some(fault)) => Err(fault),
            (outcome, _) => outcome,
        }
    }
}

} // verus!
