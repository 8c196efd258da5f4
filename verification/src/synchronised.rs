//! The `synchronised` attribute, which wraps a function body between `enter()` and
//! `leave()` on a monitor: reading the attribute and the function with `syn`,
//! choosing the monitor expression (from the attribute, or else the first
//! parameter of type `&impl Monitor`), refusing what it cannot handle, and writing
//! the wrapped function. A procedural-macro crate hands it the token streams as text.
use quote::ToTokens;
use vstd::prelude::*;

verus! {

/// What parsing the attribute's argument found.
pub enum Attribute {
    /// The attribute has no argument.
    Empty,
    /// The argument is not an expression.
    Unparsable,
    /// A path such as `monitor`.
    Path(String),
    /// A reference such as `&self.monitor`; holds the referenced expression.
    Reference(String),
    /// A field access such as `self.monitor`.
    Field(String),
    /// Any other expression.
    Other,
}

/// [`Attribute`] with its texts as character sequences.
pub ghost enum AttributeView {
    Empty,
    Unparsable,
    Path(Seq<char>),
    Reference(Seq<char>),
    Field(Seq<char>),
    Other,
}

impl View for Attribute {
    type V = AttributeView;

    open spec fn view(&self) -> AttributeView {
        match self {
            Attribute::Empty => AttributeView::Empty,
            Attribute::Unparsable => AttributeView::Unparsable,
            Attribute::Path(e) => AttributeView::Path(e@),
            Attribute::Reference(e) => AttributeView::Reference(e@),
            Attribute::Field(e) => AttributeView::Field(e@),
            Attribute::Other => AttributeView::Other,
        }
    }
}

/// One parameter of a function as text: its pattern, and its type unless it is
/// the `self` receiver.
pub struct ParamText {
    pub pattern: String,
    pub ty: Option<String>,
}

impl View for ParamText {
    type V = (Seq<char>, Option<Seq<char>>);

    open spec fn view(&self) -> (Seq<char>, Option<Seq<char>>) {
        (self.pattern@, match self.ty {
            Some(t) => Some(t@),
            None => None,
        })
    }
}

/// The shape of a parameter that the choice of monitor looks at.
pub struct ParamShape {
    /// The parameter's pattern, such as `monitor`.
    pub pattern: String,
    /// Its type is a reference to an `impl` type.
    pub ref_to_impl: bool,
    /// The bounds of that `impl` type; a trait bound is given by its path.
    pub bounds: Vec<String>,
}

/// Where the monitor to enter and leave comes from.
pub enum MonitorSource {
    /// The parameter at this position.
    Param(usize),
    /// The expression given in the attribute.
    Expr(String),
}

/// [`MonitorSource`] with its text as a character sequence.
pub ghost enum MonitorSourceView {
    Param(int),
    Expr(Seq<char>),
}

impl View for MonitorSource {
    type V = MonitorSourceView;

    open spec fn view(&self) -> MonitorSourceView {
        match self {
            MonitorSource::Param(i) => MonitorSourceView::Param(*i as int),
            MonitorSource::Expr(e) => MonitorSourceView::Expr(e@),
        }
    }
}

/// Why the attribute is refused.
#[derive(Debug, Clone, PartialEq, Eq)]
pub enum MacroError {
    NoMonitorArgument,
    UnparsableAttribute,
    UnsupportedAttribute,
    /// The item is not a function; holds `syn`'s message for the parse error.
    InvalidItem(String),
    /// The chosen monitor expression does not make a valid `enter()` call.
    InvalidExpansion,
}

/// [`MacroError`] with its message as a character sequence.
pub ghost enum MacroErrorView {
    NoMonitorArgument,
    UnparsableAttribute,
    UnsupportedAttribute,
    InvalidItem(Seq<char>),
    InvalidExpansion,
}

impl View for MacroError {
    type V = MacroErrorView;

    open spec fn view(&self) -> MacroErrorView {
        match self {
            MacroError::NoMonitorArgument => MacroErrorView::NoMonitorArgument,
            MacroError::UnparsableAttribute => MacroErrorView::UnparsableAttribute,
            MacroError::UnsupportedAttribute => MacroErrorView::UnsupportedAttribute,
            MacroError::InvalidItem(m) => MacroErrorView::InvalidItem(m@),
            MacroError::InvalidExpansion => MacroErrorView::InvalidExpansion,
        }
    }
}

impl MacroError {
    /// The compile error reported for this refusal.
    pub fn message(&self) -> (r: &str)
        ensures
            r@ == match self@ {
                MacroErrorView::NoMonitorArgument => "No argument of type &impl Monitor found"@,
                MacroErrorView::UnparsableAttribute => "Failed to parse attribute as expression"@,
                MacroErrorView::UnsupportedAttribute =>
                    "Attribute expression must be a path, reference, or field access"@,
                MacroErrorView::InvalidItem(m) => m,
                MacroErrorView::InvalidExpansion => "the monitor expression cannot be called"@,
            },
    {
        match self {
            MacroError::NoMonitorArgument => "No argument of type &impl Monitor found",
            MacroError::UnparsableAttribute => "Failed to parse attribute as expression",
            MacroError::UnsupportedAttribute => "Attribute expression must be a path, reference, or field access",
            MacroError::InvalidItem(m) => m.as_str(),
            MacroError::InvalidExpansion => "the monitor expression cannot be called",
        }
    }
}

/// What `syn` parses the attribute text into, as an expression.
pub uninterp spec fn parsed_attribute(text: Seq<char>) -> AttributeView;

/// The parameters, in order, of the function that `syn` parses the item text into,
/// or, when it is not a function, the message of `syn`'s parse error.
pub uninterp spec fn parsed_params(item: Seq<char>) -> Result<Seq<(Seq<char>, Option<Seq<char>>)>, Seq<char>>;

/// When `syn` parses the type text as `&impl B1 + B2 ...`, the bounds as text (the
/// path of each trait bound); otherwise None.
pub uninterp spec fn impl_bounds_of(ty: Seq<char>) -> Option<Seq<Seq<char>>>;

/// The body block, as text, of the function that `syn` parses the item text into,
/// or the message of `syn`'s parse error.
pub uninterp spec fn block_of(item: Seq<char>) -> Result<Seq<char>, Seq<char>>;

/// The function that `syn` parses the item text into, with its body replaced by
/// the block that `syn` parses from `block`, printed as text; None when either
/// does not parse.
pub uninterp spec fn item_with_block(item: Seq<char>, block: Seq<char>) -> Option<Seq<char>>;

/// `syn::parse_str::<syn::Expr>` on the attribute text, told apart by kind of
/// expression and printed back as tokens. Claimed: the result is
/// `parsed_attribute` of the text, never `Empty`.
#[verifier::external_body]
fn parse_attribute(text: &str) -> (a: Attribute)
    ensures
        a@ == parsed_attribute(text@),
{
    match syn::parse_str::<syn::Expr>(text) {
        Ok(syn::Expr::Reference(r)) => Attribute::Reference(r.expr.to_token_stream().to_string()),
        Ok(e @ syn::Expr::Path(_)) => Attribute::Path(e.to_token_stream().to_string()),
        Ok(e @ syn::Expr::Field(_)) => Attribute::Field(e.to_token_stream().to_string()),
        Ok(_) => Attribute::Other,
        Err(_) => Attribute::Unparsable,
    }
}

/// `syn::parse_str::<syn::ItemFn>` on the item text, its parameters printed back as
/// tokens, or the parse error's message. Claimed: the result is `parsed_params` of
/// the text.
#[verifier::external_body]
fn parse_params(item: &str) -> (r: Result<Vec<ParamText>, String>)
    ensures
        match r {
            Ok(v) => parsed_params(item@) == Ok::<_, Seq<char>>(v@.map_values(|p: ParamText| p@)),
            Err(m) => parsed_params(item@) == Err::<Seq<(Seq<char>, Option<Seq<char>>)>, _>(m@),
        },
{
    match syn::parse_str::<syn::ItemFn>(item) {
        Ok(f) => Ok(f.sig.inputs.iter().map(|a| match a {
            syn::FnArg::Typed(p) => ParamText {
                pattern: p.pat.to_token_stream().to_string(),
                ty: Some(p.ty.to_token_stream().to_string()),
            },
            syn::FnArg::Receiver(r) => ParamText { pattern: r.to_token_stream().to_string(), ty: None },
        }).collect()),
        Err(e) => Err(e.to_string()),
    }
}

/// `syn::parse_str::<syn::Type>` on a type text, keeping the bounds of a reference
/// to an `impl` type. Claimed: the result is `impl_bounds_of` of the text.
#[verifier::external_body]
fn impl_bounds(ty: &str) -> (r: Option<Vec<String>>)
    ensures
        match r {
            Some(v) => impl_bounds_of(ty@) == Some(v@.map_values(|b: String| b@)),
            None => impl_bounds_of(ty@) is None,
        },
{
    match syn::parse_str::<syn::Type>(ty) {
        Ok(syn::Type::Reference(r)) => match *r.elem {
            syn::Type::ImplTrait(t) => Some(t.bounds.iter().map(|b| match b {
                syn::TypeParamBound::Trait(tb) => tb.path.to_token_stream().to_string(),
                other => other.to_token_stream().to_string(),
            }).collect()),
            _ => None,
        },
        _ => None,
    }
}

/// `syn::parse_str::<syn::ItemFn>` on the item text, its body block printed back as
/// tokens, or the parse error's message. Claimed: the result is `block_of` of the
/// text.
#[verifier::external_body]
fn parse_block(item: &str) -> (r: Result<String, String>)
    ensures
        match r {
            Ok(b) => block_of(item@) == Ok::<Seq<char>, Seq<char>>(b@),
            Err(m) => block_of(item@) == Err::<Seq<char>, Seq<char>>(m@),
        },
{
    match syn::parse_str::<syn::ItemFn>(item) {
        Ok(f) => Ok(f.block.to_token_stream().to_string()),
        Err(e) => Err(e.to_string()),
    }
}

/// `syn::parse_str` of the item as `syn::ItemFn` and of `block` as `syn::Block`, the
/// function printed back with that block as its body. Claimed: the result is
/// `item_with_block` of the two texts.
#[verifier::external_body]
fn replace_block(item: &str, block: &str) -> (r: Option<String>)
    ensures
        match r {
            Some(s) => item_with_block(item@, block@) == Some(s@),
            None => item_with_block(item@, block@) is None,
        },
{
    match (syn::parse_str::<syn::ItemFn>(item), syn::parse_str::<syn::Block>(block)) {
        (Ok(mut f), Ok(b)) => {
            f.block = Box::new(b);
            Some(f.to_token_stream().to_string())
        },
        _ => None,
    }
}

/// A parameter counts as the monitor when its type is a reference to an `impl`
/// type with the bound `Monitor`.
pub open spec fn is_monitor_shape(ref_to_impl: bool, bounds: Seq<Seq<char>>) -> bool {
    ref_to_impl && bounds.contains("Monitor"@)
}

/// Whether the parameter with this text is the monitor.
pub open spec fn is_monitor_text(p: (Seq<char>, Option<Seq<char>>)) -> bool {
    match p.1 {
        Some(t) => match impl_bounds_of(t) {
            Some(bs) => is_monitor_shape(true, bs),
            None => false,
        },
        None => false,
    }
}

/// Tests whether a parameter counts as the monitor.
pub fn is_monitor_param(p: &ParamShape) -> (r: bool)
    ensures
        r == is_monitor_shape(p.ref_to_impl, p.bounds@.map_values(|b: String| b@)),
{
    let ghost bs = p.bounds@.map_values(|b: String| b@);
    if !p.ref_to_impl {
        return false;
    }
    let monitor = "Monitor".to_owned();
    let mut i: usize = 0;
    while i < p.bounds.len()
        invariant
            i <= p.bounds@.len(),
            p.ref_to_impl,
            bs == p.bounds@.map_values(|b: String| b@),
            monitor@ == "Monitor"@,
            forall|k: int| 0 <= k < i ==> bs[k] != "Monitor"@,
        decreases p.bounds@.len() - i,
    {
        if p.bounds[i] == monitor {
            assert(bs[i as int] == "Monitor"@);
            return true;
        }
        i = i + 1;
    }
    assert forall|k: int| 0 <= k < bs.len() implies bs[k] != "Monitor"@ by {}
    false
}

/// Reads the shape of a parameter from its text.
pub fn param_shape(p: &ParamText) -> (s: ParamShape)
    ensures
        s.pattern@ == p.pattern@,
        is_monitor_shape(s.ref_to_impl, s.bounds@.map_values(|b: String| b@)) == is_monitor_text(p@),
{
    match &p.ty {
        Some(t) => match impl_bounds(t.as_str()) {
            Some(bounds) => ParamShape { pattern: p.pattern.clone(), ref_to_impl: true, bounds },
            None => ParamShape { pattern: p.pattern.clone(), ref_to_impl: false, bounds: Vec::new() },
        },
        None => ParamShape { pattern: p.pattern.clone(), ref_to_impl: false, bounds: Vec::new() },
    }
}

/// Position of the first parameter that counts as the monitor, if any.
pub open spec fn first_monitor_param(is_monitor: Seq<bool>) -> Option<int>
    decreases is_monitor.len(),
{
    if is_monitor.len() == 0 {
        None
    } else if is_monitor[0] {
        Some(0)
    } else {
        match first_monitor_param(is_monitor.drop_first()) {
            Some(i) => Some(i + 1),
            None => None,
        }
    }
}

proof fn lemma_first_monitor_param_bound(is_monitor: Seq<bool>)
    ensures
        first_monitor_param(is_monitor) matches Some(i) ==> 0 <= i < is_monitor.len() && is_monitor[i],
    decreases is_monitor.len(),
{
    if is_monitor.len() > 0 && !is_monitor[0] {
        lemma_first_monitor_param_bound(is_monitor.drop_first());
    }
}

proof fn lemma_first_monitor_param(is_monitor: Seq<bool>, i: int)
    requires
        0 <= i <= is_monitor.len(),
        forall|k: int| 0 <= k < i ==> !is_monitor[k],
    ensures
        first_monitor_param(is_monitor) == (if i < is_monitor.len() && is_monitor[i] {
            Some(i)
        } else {
            match first_monitor_param(is_monitor.subrange(i, is_monitor.len() as int)) {
                Some(j) => Some(j + i),
                None => None,
            }
        }),
    decreases i,
{
    if i == 0 {
        assert(is_monitor.subrange(0, is_monitor.len() as int) =~= is_monitor);
        if is_monitor.len() > 0 && is_monitor[0] {
        } else if is_monitor.len() > 0 {
        }
    } else {
        let t = is_monitor.drop_first();
        lemma_first_monitor_param(t, i - 1);
        assert(t.subrange(i - 1, t.len() as int) =~= is_monitor.subrange(i, is_monitor.len() as int));
    }
}

/// Finds the parameter to take the monitor from: the first one, in order, whose
/// type counts as the monitor (`is_monitor` holds that test for each parameter).
pub fn find_monitor_param(is_monitor: &Vec<bool>) -> (r: Option<usize>)
    ensures
        match r {
            Some(i) => first_monitor_param(is_monitor@) == Some(i as int),
            None => first_monitor_param(is_monitor@) is None,
        },
{
    let mut i: usize = 0;
    while i < is_monitor.len()
        invariant
            i <= is_monitor@.len(),
            forall|k: int| 0 <= k < i ==> !is_monitor@[k],
        decreases is_monitor@.len() - i,
    {
        if is_monitor[i] {
            proof {
                lemma_first_monitor_param(is_monitor@, i as int);
            }
            return Some(i);
        }
        i = i + 1;
    }
    proof {
        lemma_first_monitor_param(is_monitor@, i as int);
        assert(is_monitor@.subrange(i as int, is_monitor@.len() as int).len() == 0);
    }
    None
}

/// The monitor chosen for the attribute and the parameters, or the refusal.
pub open spec fn monitor_source_spec(attr: AttributeView, is_monitor: Seq<bool>) -> Result<
    MonitorSourceView,
    MacroErrorView,
> {
    match attr {
        AttributeView::Empty => match first_monitor_param(is_monitor) {
            Some(i) => Ok(MonitorSourceView::Param(i)),
            None => Err(MacroErrorView::NoMonitorArgument),
        },
        AttributeView::Unparsable => Err(MacroErrorView::UnparsableAttribute),
        AttributeView::Path(e) => Ok(MonitorSourceView::Expr(e)),
        AttributeView::Reference(e) => Ok(MonitorSourceView::Expr(e)),
        AttributeView::Field(e) => Ok(MonitorSourceView::Expr(e)),
        AttributeView::Other => Err(MacroErrorView::UnsupportedAttribute),
    }
}

/// Decides which monitor the wrapped body enters and leaves: without an argument,
/// the first `&impl Monitor` parameter; with one, the path or field it names, or
/// what it references.
pub fn monitor_source(attr: Attribute, is_monitor: &Vec<bool>) -> (r: Result<MonitorSource, MacroError>)
    ensures
        match r {
            Ok(s) => monitor_source_spec(attr@, is_monitor@) == Ok::<MonitorSourceView, MacroErrorView>(s@),
            Err(e) => monitor_source_spec(attr@, is_monitor@) == Err::<MonitorSourceView, MacroErrorView>(e@),
        },
{
    match attr {
        Attribute::Empty => match find_monitor_param(is_monitor) {
            Some(i) => Ok(MonitorSource::Param(i)),
            None => Err(MacroError::NoMonitorArgument),
        },
        Attribute::Unparsable => Err(MacroError::UnparsableAttribute),
        Attribute::Path(e) => Ok(MonitorSource::Expr(e)),
        Attribute::Reference(e) => Ok(MonitorSource::Expr(e)),
        Attribute::Field(e) => Ok(MonitorSource::Expr(e)),
        Attribute::Other => Err(MacroError::UnsupportedAttribute),
    }
}

/// The body that enters the monitor `m`, runs `block`, and leaves `m`.
pub open spec fn wrapped_block(m: Seq<char>, block: Seq<char>) -> Seq<char> {
    "{ "@ + m + ".enter(); "@ + block + " "@ + m + ".leave(); }"@
}

/// The attribute's result for the attribute text `attr` (empty when it has no
/// argument) and the item text: the function with its body wrapped between
/// `enter()` and `leave()` on the chosen monitor, or the refusal.
pub open spec fn synchronised_spec(attr: Seq<char>, item: Seq<char>) -> Result<Seq<char>, MacroErrorView> {
    match parsed_params(item) {
        Err(msg) => Err(MacroErrorView::InvalidItem(msg)),
        Ok(ps) => {
            let a = if attr.len() == 0 { AttributeView::Empty } else { parsed_attribute(attr) };
            match monitor_source_spec(a, ps.map_values(|p: (Seq<char>, Option<Seq<char>>)| is_monitor_text(p))) {
                Err(e) => Err(e),
                Ok(src) => {
                    let m = match src {
                        MonitorSourceView::Param(i) => ps[i].0,
                        MonitorSourceView::Expr(e) => e,
                    };
                    match block_of(item) {
                        Err(msg) => Err(MacroErrorView::InvalidItem(msg)),
                        Ok(b) => match item_with_block(item, wrapped_block(m, b)) {
                            None => Err(MacroErrorView::InvalidExpansion),
                            Some(out) => Ok(out),
                        },
                    }
                },
            }
        },
    }
}

/// The `synchronised` attribute on the texts of its argument (empty when it has
/// none) and of the function it is put on.
pub fn synchronised(attr: &str, item: &str) -> (r: Result<String, MacroError>)
    ensures
        match r {
            Ok(s) => synchronised_spec(attr@, item@) == Ok::<Seq<char>, MacroErrorView>(s@),
            Err(e) => synchronised_spec(attr@, item@) == Err::<Seq<char>, MacroErrorView>(e@),
        },
{
    let params = match parse_params(item) {
        Ok(p) => p,
        Err(msg) => {
            return Err(MacroError::InvalidItem(msg));
        },
    };
    let ghost ps = params@.map_values(|p: ParamText| p@);
    let mut flags: Vec<bool> = Vec::new();
    let mut i: usize = 0;
    while i < params.len()
        invariant
            i <= params@.len(),
            ps == params@.map_values(|p: ParamText| p@),
            flags@.len() == i,
            forall|k: int| 0 <= k < i ==> flags@[k] == is_monitor_text(#[trigger] ps[k]),
        decreases params@.len() - i,
    {
        let shape = param_shape(&params[i]);
        flags.push(is_monitor_param(&shape));
        i = i + 1;
    }
    assert(flags@ =~= ps.map_values(|p: (Seq<char>, Option<Seq<char>>)| is_monitor_text(p)));
    let attribute = if attr.is_empty() {
        Attribute::Empty
    } else {
        parse_attribute(attr)
    };
    proof {
        lemma_first_monitor_param_bound(flags@);
    }
    let monitor = match monitor_source(attribute, &flags) {
        Ok(MonitorSource::Param(k)) => {
            assert(ps[k as int] == params@[k as int]@);
            params[k].pattern.clone()
        },
        Ok(MonitorSource::Expr(e)) => e,
        Err(e) => {
            return Err(e);
        },
    };
    let block = match parse_block(item) {
        Ok(b) => b,
        Err(msg) => {
            return Err(MacroError::InvalidItem(msg));
        },
    };
    let mut body = String::new();
    body.append("{ ");
    body.append(monitor.as_str());
    body.append(".enter(); ");
    body.append(block.as_str());
    body.append(" ");
    body.append(monitor.as_str());
    body.append(".leave(); }");
    assert(body@ =~= wrapped_block(monitor@, block@));
    match replace_block(item, body.as_str()) {
        Some(out) => Ok(out),
        None => Err(MacroError::InvalidExpansion),
    }
}

proof fn lemma_first_monitor_param_first(is_monitor: Seq<bool>)
    ensures
        match first_monitor_param(is_monitor) {
            Some(i) => 0 <= i < is_monitor.len() && is_monitor[i] && forall|k: int| 0 <= k < i ==> !is_monitor[k],
            None => forall|k: int| 0 <= k < is_monitor.len() ==> !is_monitor[k],
        },
    decreases is_monitor.len(),
{
    if is_monitor.len() > 0 && !is_monitor[0] {
        let t = is_monitor.drop_first();
        lemma_first_monitor_param_first(t);
        match first_monitor_param(t) {
            Some(i) => {
                assert forall|k: int| 0 <= k < i + 1 implies !is_monitor[k] by {
                    if k > 0 {
                        assert(is_monitor[k] == t[k - 1]);
                    }
                }
            },
            None => {
                assert forall|k: int| 0 <= k < is_monitor.len() implies !is_monitor[k] by {
                    if k > 0 {
                        assert(is_monitor[k] == t[k - 1]);
                    }
                }
            },
        }
    }
}

/// An attribute that names the monitor decides it, whatever the parameters are: a
/// path or a field access is used as it stands, and a reference by what it refers
/// to. The parameters are looked at only when the attribute is empty.
pub proof fn law_attribute_expression_wins(e: Seq<char>, is_monitor: Seq<bool>)
    ensures
        monitor_source_spec(AttributeView::Path(e), is_monitor) == Ok::<MonitorSourceView, MacroErrorView>(
            MonitorSourceView::Expr(e),
        ),
        monitor_source_spec(AttributeView::Field(e), is_monitor) == Ok::<MonitorSourceView, MacroErrorView>(
            MonitorSourceView::Expr(e),
        ),
        monitor_source_spec(AttributeView::Reference(e), is_monitor) == Ok::<
            MonitorSourceView,
            MacroErrorView,
        >(MonitorSourceView::Expr(e)),
        monitor_source_spec(AttributeView::Unparsable, is_monitor) == Err::<MonitorSourceView, MacroErrorView>(
            MacroErrorView::UnparsableAttribute,
        ),
        monitor_source_spec(AttributeView::Other, is_monitor) == Err::<MonitorSourceView, MacroErrorView>(
            MacroErrorView::UnsupportedAttribute,
        ),
{
}

/// Without an attribute argument the monitor is the first parameter that counts as
/// one: the chosen position counts and no earlier one does; when none counts the
/// attribute is refused for want of a monitor argument.
pub proof fn law_empty_attribute_takes_first_monitor(is_monitor: Seq<bool>)
    ensures
        match monitor_source_spec(AttributeView::Empty, is_monitor) {
            Ok(MonitorSourceView::Param(i)) => 0 <= i < is_monitor.len() && is_monitor[i] && forall|k: int|
                0 <= k < i ==> !is_monitor[k],
            Ok(MonitorSourceView::Expr(_)) => false,
            Err(e) => e == MacroErrorView::NoMonitorArgument && forall|k: int|
                0 <= k < is_monitor.len() ==> !is_monitor[k],
        },
{
    lemma_first_monitor_param_first(is_monitor);
}

/// The attribute wraps the body of the function between `enter()` and `leave()`
/// on the monitor it names: with a path or field argument `e`, the body becomes
/// `{ e.enter(); BODY e.leave(); }` whatever the parameters are; with no argument,
/// `e` is the pattern of the first parameter whose type counts as a monitor.
pub proof fn law_synchronised_wraps_named_monitor(attr: Seq<char>, item: Seq<char>, e: Seq<char>)
    requires
        parsed_params(item) is Ok,
        block_of(item) is Ok,
        (attr.len() > 0 && (parsed_attribute(attr) == AttributeView::Path(e) || parsed_attribute(attr)
            == AttributeView::Field(e))) || (attr.len() == 0 && exists|i: int|
            #![trigger parsed_params(item)->Ok_0[i]]
            0 <= i < parsed_params(item)->Ok_0.len() && is_monitor_text(parsed_params(item)->Ok_0[i])
                && parsed_params(item)->Ok_0[i].0 == e && forall|k: int|
                0 <= k < i ==> !is_monitor_text(parsed_params(item)->Ok_0[k])),
    ensures
        synchronised_spec(attr, item) == match item_with_block(
            item,
            "{ "@ + e + ".enter(); "@ + block_of(item)->Ok_0 + " "@ + e + ".leave(); }"@,
        ) {
            Some(out) => Ok::<Seq<char>, MacroErrorView>(out),
            None => Err::<Seq<char>, MacroErrorView>(MacroErrorView::InvalidExpansion),
        },
{
    let ps = parsed_params(item)->Ok_0;
    let flags = ps.map_values(|p: (Seq<char>, Option<Seq<char>>)| is_monitor_text(p));
    if attr.len() == 0 {
        let i = choose|i: int|
            #![trigger ps[i]]
            0 <= i < ps.len() && is_monitor_text(ps[i]) && ps[i].0 == e && forall|k: int|
                0 <= k < i ==> !is_monitor_text(ps[k]);
        lemma_first_monitor_param_first(flags);
        assert(flags[i]);
        match first_monitor_param(flags) {
            Some(j) => {
                if j < i {
                    assert(!is_monitor_text(ps[j]));
                } else if j > i {
                    assert(!flags[i]);
                }
            },
            None => {
                assert(!flags[i]);
            },
        }
    }
}

} // verus!
