//! The head token of one element: its tag name, id, classes and remaining attributes, written in
//! the styles that the configuration chooses.

use crate::config::{ClassStyle, Config, IdStyle};
use crate::text::{
    char_is_numeric, is_numeric, join, joined, spaced, split_whitespace, str_eq, texts, words,
};
use vstd::prelude::*;

verus! {

/// One attribute of an element, told apart by what the formatter does with it.
pub enum Attribute {
    /// The value of an `id` attribute.
    Id(String),
    /// The value of a `class` attribute: class names between whitespace.
    Classes(String),
    /// Any other attribute.
    Other { name: String, value: String },
}

/// An [`Attribute`] as plain text.
pub enum AttributeView {
    Id(Seq<char>),
    Classes(Seq<char>),
    Other { name: Seq<char>, value: Seq<char> },
}

impl View for Attribute {
    type V = AttributeView;

    open spec fn view(&self) -> AttributeView {
        match self {
            Attribute::Id(id) => AttributeView::Id(id@),
            Attribute::Classes(classes) => AttributeView::Classes(classes@),
            Attribute::Other { name, value } => AttributeView::Other { name: name@, value: value@ },
        }
    }
}

/// The views of a sequence of attributes.
pub open spec fn attribute_views(attrs: Seq<Attribute>) -> Seq<AttributeView> {
    Seq::new(attrs.len(), |i: int| attrs[i]@)
}

/// The views of a sequence of name and value pairs.
pub open spec fn pair_views(pairs: Seq<(String, String)>) -> Seq<(Seq<char>, Seq<char>)> {
    Seq::new(pairs.len(), |i: int| (pairs[i].0@, pairs[i].1@))
}

/// The attribute that a name and a value of the markup stand for.
pub open spec fn attribute_of(name: Seq<char>, value: Seq<char>) -> AttributeView {
    if name == "id"@ {
        AttributeView::Id(value)
    } else if name == "class"@ {
        AttributeView::Classes(value)
    } else {
        AttributeView::Other { name, value }
    }
}

/// The attributes that a list of names and values of the markup stands for, in its order.
pub open spec fn attributes_of(pairs: Seq<(Seq<char>, Seq<char>)>) -> Seq<AttributeView> {
    Seq::new(pairs.len(), |i: int| attribute_of(pairs[i].0, pairs[i].1))
}

/// The ids among `attrs`, in their order.
pub open spec fn ids_of(attrs: Seq<AttributeView>) -> Seq<Seq<char>>
    decreases attrs.len(),
{
    if attrs.len() == 0 {
        Seq::empty()
    } else {
        let before = ids_of(attrs.drop_last());
        match attrs.last() {
            AttributeView::Id(id) => before.push(id),
            _ => before,
        }
    }
}

/// The class names among `attrs`: the words of each class attribute, in their order, none left
/// out where it occurs twice.
pub open spec fn classes_of(attrs: Seq<AttributeView>) -> Seq<Seq<char>>
    decreases attrs.len(),
{
    if attrs.len() == 0 {
        Seq::empty()
    } else {
        let before = classes_of(attrs.drop_last());
        match attrs.last() {
            AttributeView::Classes(classes) => before + words(classes),
            _ => before,
        }
    }
}

/// The names and values of the attributes among `attrs` that are neither id nor class, in their
/// order.
pub open spec fn others_of(attrs: Seq<AttributeView>) -> Seq<(Seq<char>, Seq<char>)>
    decreases attrs.len(),
{
    if attrs.len() == 0 {
        Seq::empty()
    } else {
        let before = others_of(attrs.drop_last());
        match attrs.last() {
            AttributeView::Other { name, value } => before.push((name, value)),
            _ => before,
        }
    }
}

/// An [`Element`] as plain text.
pub struct ElementView {
    pub tag_name: Seq<char>,
    pub ids: Seq<Seq<char>>,
    pub classes: Seq<Seq<char>>,
    pub attributes: Seq<(Seq<char>, Seq<char>)>,
}

/// The element that a tag name and its attributes make.
pub open spec fn element_of(tag_name: Seq<char>, attrs: Seq<AttributeView>) -> ElementView {
    ElementView {
        tag_name,
        ids: ids_of(attrs),
        classes: classes_of(attrs),
        attributes: others_of(attrs),
    }
}

/// Whether a tag name is that of a void element: one that has no content and no closing tag.
pub open spec fn is_void_tag(tag_name: Seq<char>) -> bool {
    ||| tag_name == "area"@
    ||| tag_name == "base"@
    ||| tag_name == "br"@
    ||| tag_name == "col"@
    ||| tag_name == "embed"@
    ||| tag_name == "hr"@
    ||| tag_name == "img"@
    ||| tag_name == "input"@
    ||| tag_name == "link"@
    ||| tag_name == "meta"@
    ||| tag_name == "param"@
    ||| tag_name == "source"@
    ||| tag_name == "track"@
    ||| tag_name == "wbr"@
}

/// Whether a shorthand token must stand in double quotes: it holds a numeric character or a
/// colon.
pub open spec fn requires_quotes(token: Seq<char>) -> bool {
    exists|i: int| 0 <= i < token.len() && (is_numeric(token[i]) || token[i] == ':')
}

/// A shorthand token as it is written: in double quotes where it must be, else bare.
pub open spec fn shorthand(token: Seq<char>) -> Seq<char> {
    if requires_quotes(token) {
        seq!['"'] + token + seq!['"']
    } else {
        token
    }
}

/// Each token as [`shorthand`] writes it.
pub open spec fn shorthands(tokens: Seq<Seq<char>>) -> Seq<Seq<char>> {
    Seq::new(tokens.len(), |i: int| shorthand(tokens[i]))
}

/// Whether the tag name is left out: the element is a `div` and either has an id under
/// `IdStyle::ShortNoDiv` or has a class under `ClassStyle::ShortNoDiv`.
pub open spec fn omits_tag_name(element: ElementView, config: Config) -> bool {
    &&& element.tag_name == "div"@
    &&& {
        ||| element.ids.len() > 0 && config.id_style == IdStyle::ShortNoDiv
        ||| element.classes.len() > 0 && config.class_style == ClassStyle::ShortNoDiv
    }
}

/// The tag name as it is written: itself, or nothing where it is left out.
pub open spec fn tag_segment(element: ElementView, config: Config) -> Seq<char> {
    if omits_tag_name(element, config) {
        Seq::empty()
    } else {
        element.tag_name
    }
}

/// One id as it is written in a style.
pub open spec fn id_text(id: Seq<char>, style: IdStyle) -> Seq<char> {
    match style {
        IdStyle::Full => "id=\""@ + id + "\""@,
        IdStyle::Short | IdStyle::ShortNoDiv => "#"@ + shorthand(id),
    }
}

/// The id of an element as it is written: its first id, or nothing where it has none.
pub open spec fn id_segment(ids: Seq<Seq<char>>, style: IdStyle) -> Seq<char> {
    if ids.len() == 0 {
        Seq::empty()
    } else {
        id_text(ids.first(), style)
    }
}

/// The classes of an element as they are written in a style: one attribute that holds them
/// between spaces, or one `.` and token for each; nothing where that text would be empty.
pub open spec fn class_segment(classes: Seq<Seq<char>>, style: ClassStyle) -> Seq<char> {
    match style {
        ClassStyle::Full => {
            let names = joined(classes, " "@);
            if names.len() == 0 {
                Seq::empty()
            } else {
                "class=\""@ + names + "\""@
            }
        },
        ClassStyle::Short | ClassStyle::ShortNoDiv => {
            let tokens = joined(shorthands(classes), "."@);
            if tokens.len() == 0 {
                Seq::empty()
            } else {
                "."@ + tokens
            }
        },
    }
}

/// One attribute as it is written: its name alone where the value is empty, else the name and
/// the value in double quotes, the value as it stands.
pub open spec fn attribute_text(name: Seq<char>, value: Seq<char>) -> Seq<char> {
    if value.len() == 0 {
        name
    } else {
        name + "=\""@ + value + "\""@
    }
}

/// Each attribute as [`attribute_text`] writes it.
pub open spec fn attribute_texts(attributes: Seq<(Seq<char>, Seq<char>)>) -> Seq<Seq<char>> {
    Seq::new(attributes.len(), |i: int| attribute_text(attributes[i].0, attributes[i].1))
}

/// The remaining attributes as they are written: one after the other between spaces.
pub open spec fn attribute_segment(attributes: Seq<(Seq<char>, Seq<char>)>) -> Seq<char> {
    joined(attribute_texts(attributes), " "@)
}

/// The head token of an element: tag name, id, classes and remaining attributes in this order,
/// those that are empty left out, one space between the others.
pub open spec fn head_token(element: ElementView, config: Config) -> Seq<char> {
    spaced(
        seq![
            tag_segment(element, config),
            id_segment(element.ids, config.id_style),
            class_segment(element.classes, config.class_style),
            attribute_segment(element.attributes),
        ],
    )
}

/// The attribute that the name and value of the markup stand for: `id` and `class` are told
/// apart from all other names.
pub fn new_attribute(name: String, value: String) -> (attr: Attribute)
    ensures
        attr@ == attribute_of(name@, value@),
{
    if str_eq(name.as_str(), "id") {
        Attribute::Id(value)
    } else if str_eq(name.as_str(), "class") {
        Attribute::Classes(value)
    } else {
        Attribute::Other { name, value }
    }
}

/// Whether `tag_name` is that of a void element.
pub fn is_empty_element(tag_name: &str) -> (void: bool)
    ensures
        void == is_void_tag(tag_name@),
{
    str_eq(tag_name, "area")
        || str_eq(tag_name, "base")
        || str_eq(tag_name, "br")
        || str_eq(tag_name, "col")
        || str_eq(tag_name, "embed")
        || str_eq(tag_name, "hr")
        || str_eq(tag_name, "img")
        || str_eq(tag_name, "input")
        || str_eq(tag_name, "link")
        || str_eq(tag_name, "meta")
        || str_eq(tag_name, "param")
        || str_eq(tag_name, "source")
        || str_eq(tag_name, "track")
        || str_eq(tag_name, "wbr")
}

/// The parts that are not empty, in order, with one space between each two neighbours.
fn join_spaced(parts: &[String]) -> (text: String)
    ensures
        text@ == spaced(texts(parts@)),
{
    let mut text = String::new();
    let mut at: usize = 0;
    while at < parts.len()
        invariant
            at <= parts.len(),
            text@ == spaced(texts(parts@).take(at as int)),
        decreases parts.len() - at,
    {
        proof {
            let now = texts(parts@).take(at + 1);
            assert(now.drop_last() =~= texts(parts@).take(at as int));
            assert(now.last() == parts@[at as int]@);
            reveal_strlit(" ");
            assert(" "@ =~= seq![' ']);
        }
        let part = parts[at].as_str();
        if !part.is_empty() {
            if !text.as_str().is_empty() {
                text.append(" ");
            }
            text.append(part);
        }
        at = at + 1;
    }
    proof {
        assert(texts(parts@).take(at as int) =~= texts(parts@));
    }
    text
}

/// An element of the markup: its tag name and what its attributes hold, sorted into ids, class
/// names and the rest, each in the order of the markup.
#[derive(Debug)]
pub struct Element {
    tag_name: String,
    ids: Vec<String>,
    classes: Vec<String>,
    attributes: Vec<(String, String)>,
}

impl View for Element {
    type V = ElementView;

    closed spec fn view(&self) -> ElementView {
        ElementView {
            tag_name: self.tag_name@,
            ids: texts(self.ids@),
            classes: texts(self.classes@),
            attributes: pair_views(self.attributes@),
        }
    }
}

impl Element {
    /// The element with this tag name and these attributes.
    pub fn new(tag_name: String, attrs: Vec<Attribute>) -> (element: Element)
        ensures
            element@ == element_of(tag_name@, attribute_views(attrs@)),
    {
        let mut info = Element {
            tag_name: tag_name,
            ids: Vec::new(),
            classes: Vec::new(),
            attributes: Vec::new(),
        };
        let ghost all = attribute_views(attrs@);
        let mut at: usize = 0;
        while at < attrs.len()
            invariant
                at <= attrs.len(),
                all == attribute_views(attrs@),
                info.tag_name@ == tag_name@,
                texts(info.ids@) == ids_of(all.take(at as int)),
                texts(info.classes@) == classes_of(all.take(at as int)),
                pair_views(info.attributes@) == others_of(all.take(at as int)),
            decreases attrs.len() - at,
        {
            proof {
                assert(all.take(at + 1).drop_last() =~= all.take(at as int));
                assert(all.take(at + 1).last() == attrs@[at as int]@);
            }
            let ghost ids = info.ids@;
            let ghost classes = info.classes@;
            let ghost others = info.attributes@;
            match &attrs[at] {
                Attribute::Id(id) => {
                    info.ids.push(id.clone());
                    proof {
                        assert(texts(info.ids@) =~= texts(ids).push(id@));
                    }
                },
                Attribute::Classes(names) => {
                    let mut pieces = split_whitespace(names.as_str());
                    let ghost added = pieces@;
                    info.classes.append(&mut pieces);
                    proof {
                        assert(texts(info.classes@) =~= texts(classes) + texts(added));
                    }
                },
                Attribute::Other { name, value } => {
                    info.attributes.push((name.clone(), value.clone()));
                    proof {
                        assert(pair_views(info.attributes@) =~= pair_views(others).push(
                            (name@, value@),
                        ));
                    }
                },
            }
            at = at + 1;
        }
        proof {
            assert(all.take(at as int) =~= all);
        }
        info
    }

    /// The head token of the element under `config`.
    pub fn to_maud(&self, config: &Config) -> (token: String)
        ensures
            token@ == head_token(self@, *config),
    {
        let mut parts: Vec<String> = Vec::new();
        parts.push(self.format_tag_name(config));
        parts.push(self.format_id(&config.id_style));
        parts.push(self.format_classes(&config.class_style));
        parts.push(self.format_attributes());
        proof {
            assert(texts(parts@) =~= seq![
                tag_segment(self@, *config),
                id_segment(self@.ids, config.id_style),
                class_segment(self@.classes, config.class_style),
                attribute_segment(self@.attributes),
            ]);
        }
        join_spaced(parts.as_slice())
    }

    /// The tag name as it is written under `config`.
    pub fn format_tag_name(&self, config: &Config) -> (text: String)
        ensures
            text@ == tag_segment(self@, *config),
    {
        if self.should_omit_tag_name(config) {
            String::new()
        } else {
            self.tag_name.clone()
        }
    }

    /// The id as it is written in a style.
    pub fn format_id(&self, id_style: &IdStyle) -> (text: String)
        ensures
            text@ == id_segment(self@.ids, *id_style),
    {
        if self.ids.len() == 0 {
            String::new()
        } else {
            self.format_id_helper(id_style, self.ids[0].as_str())
        }
    }

    /// One id as it is written in a style.
    pub fn format_id_helper(&self, id_style: &IdStyle, id: &str) -> (text: String)
        ensures
            text@ == id_text(id@, *id_style),
    {
        match id_style {
            IdStyle::Full => {
                let mut text = String::from_str("id=\"");
                text.append(id);
                text.append("\"");
                text
            },
            IdStyle::Short | IdStyle::ShortNoDiv => {
                let mut text = String::from_str("#");
                text.append(self.shorthand_quote(id).as_str());
                text
            },
        }
    }

    /// The classes as they are written in a style.
    pub fn format_classes(&self, class_style: &ClassStyle) -> (text: String)
        ensures
            text@ == class_segment(self@.classes, *class_style),
    {
        match class_style {
            ClassStyle::Full => {
                let classes = join(self.classes.as_slice(), " ");
                if classes.as_str().is_empty() {
                    String::new()
                } else {
                    let mut text = String::from_str("class=\"");
                    text.append(classes.as_str());
                    text.append("\"");
                    text
                }
            },
            ClassStyle::Short | ClassStyle::ShortNoDiv => {
                let mut tokens: Vec<String> = Vec::new();
                let mut at: usize = 0;
                while at < self.classes.len()
                    invariant
                        at <= self.classes.len(),
                        texts(tokens@) == shorthands(self@.classes).take(at as int),
                    decreases self.classes.len() - at,
                {
                    let ghost before = tokens@;
                    let token = self.shorthand_quote(self.classes[at].as_str());
                    tokens.push(token);
                    proof {
                        assert(texts(tokens@) =~= texts(before).push(token@));
                        assert(texts(tokens@) =~= shorthands(self@.classes).take(at + 1));
                    }
                    at = at + 1;
                }
                proof {
                    assert(shorthands(self@.classes).take(at as int) =~= shorthands(
                        self@.classes,
                    ));
                }
                let classes = join(tokens.as_slice(), ".");
                if classes.as_str().is_empty() {
                    String::new()
                } else {
                    let mut text = String::from_str(".");
                    text.append(classes.as_str());
                    text
                }
            },
        }
    }

    /// The remaining attributes as they are written.
    pub fn format_attributes(&self) -> (text: String)
        ensures
            text@ == attribute_segment(self@.attributes),
    {
        let mut written: Vec<String> = Vec::new();
        let mut at: usize = 0;
        while at < self.attributes.len()
            invariant
                at <= self.attributes.len(),
                texts(written@) == attribute_texts(self@.attributes).take(at as int),
            decreases self.attributes.len() - at,
        {
            let ghost before = written@;
            let one = self.format_attribute(
                self.attributes[at].0.as_str(),
                self.attributes[at].1.as_str(),
            );
            written.push(one);
            proof {
                assert(texts(written@) =~= texts(before).push(one@));
                assert(texts(written@) =~= attribute_texts(self@.attributes).take(at + 1));
            }
            at = at + 1;
        }
        proof {
            assert(attribute_texts(self@.attributes).take(at as int) =~= attribute_texts(
                self@.attributes,
            ));
        }
        join(written.as_slice(), " ")
    }

    /// One attribute as it is written.
    pub fn format_attribute(&self, name: &str, value: &str) -> (text: String)
        ensures
            text@ == attribute_text(name@, value@),
    {
        if value.is_empty() {
            String::from_str(name)
        } else {
            let mut text = String::from_str(name);
            text.append("=\"");
            text.append(value);
            text.append("\"");
            text
        }
    }

    /// Whether the tag name is left out under `config`.
    pub fn should_omit_tag_name(&self, config: &Config) -> (omit: bool)
        ensures
            omit == omits_tag_name(self@, *config),
    {
        if !str_eq(self.tag_name.as_str(), "div") {
            false
        } else if self.ids.len() > 0 && config.id_style == IdStyle::ShortNoDiv {
            true
        } else if self.classes.len() > 0 && config.class_style == ClassStyle::ShortNoDiv {
            true
        } else {
            false
        }
    }

    /// A shorthand token as it is written.
    pub fn shorthand_quote(&self, token: &str) -> (text: String)
        ensures
            text@ == shorthand(token@),
    {
        if self.shorthand_attr_required_quotes(token) {
            let mut text = String::from_str("\"");
            text.append(token);
            text.append("\"");
            proof {
                reveal_strlit("\"");
                assert(text@ =~= seq!['"'] + token@ + seq!['"']);
            }
            text
        } else {
            String::from_str(token)
        }
    }

    /// Whether a shorthand token must stand in double quotes.
    pub fn shorthand_attr_required_quotes(&self, token: &str) -> (quotes: bool)
        ensures
            quotes == requires_quotes(token@),
    {
        let mut found = false;
        for c in it: token.chars()
            invariant
                it.seq() == token@,
                found == exists|i: int|
                    0 <= i < it.index() && (is_numeric(token@[i]) || token@[i] == ':'),
        {
            if char_is_numeric(c) || c == ':' {
                found = true;
            }
        }
        found
    }
}

} // verus!
