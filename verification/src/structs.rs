use vstd::prelude::*;
use vstd::string::StrSliceExecFns;

verus! {

/// A stored embed: the validated, platform-ready attachment record.
#[derive(Debug, PartialEq)]
pub struct StoredEmbed {
    /// The author for the embed.
    pub author: Option<StoredEmbedAuthor>,
    /// The embed's colour.
    pub colour: i32,
    /// The title of the embed.
    pub title: Option<String>,
    /// The url for the embed.
    pub url: Option<String>,
    /// The description of the embed.
    pub description: Option<String>,
    /// The fields of the embed.
    pub fields: Vec<StoredEmbedField>,
    /// The image url for the embed.
    pub image_url: Option<String>,
    /// The thumbnail url for the embed.
    pub thumbnail_url: Option<String>,
    /// The footer for the embed.
    pub footer: Option<StoredEmbedFooter>,
    /// The timestamp for the embed.
    pub timestamp: Option<i64>,
}

/// A stored embed author.
#[derive(Debug, PartialEq)]
pub struct StoredEmbedAuthor {
    /// The embed author's name.
    pub name: String,
    /// The url for the author.
    pub url: Option<String>,
    /// The icon url for the author.
    pub icon_url: Option<String>,
}

/// A stored embed footer.
#[derive(Debug, PartialEq)]
pub struct StoredEmbedFooter {
    /// The embed footer's text.
    pub text: String,
    /// The icon url for the footer.
    pub icon_url: Option<String>,
}

/// A stored embed field.
#[derive(Debug, PartialEq)]
pub struct StoredEmbedField {
    /// The name of the field.
    pub name: String,
    /// The value of the field.
    pub value: String,
    /// Whether or not the field is inline.
    pub inline: bool,
}

/// The mathematical model of a stored embed.
#[verifier::ext_equal]
pub struct SpecEmbed {
    pub author: Option<SpecAuthor>,
    pub colour: int,
    pub title: Option<Seq<char>>,
    pub url: Option<Seq<char>>,
    pub description: Option<Seq<char>>,
    pub fields: Seq<SpecField>,
    pub image_url: Option<Seq<char>>,
    pub thumbnail_url: Option<Seq<char>>,
    pub footer: Option<SpecFooter>,
    pub timestamp: Option<int>,
}

/// The mathematical model of a stored embed author.
#[verifier::ext_equal]
pub struct SpecAuthor {
    pub name: Seq<char>,
    pub url: Option<Seq<char>>,
    pub icon_url: Option<Seq<char>>,
}

/// The mathematical model of a stored embed footer.
#[verifier::ext_equal]
pub struct SpecFooter {
    pub text: Seq<char>,
    pub icon_url: Option<Seq<char>>,
}

/// The mathematical model of a stored embed field.
#[verifier::ext_equal]
pub struct SpecField {
    pub name: Seq<char>,
    pub value: Seq<char>,
    pub inline: bool,
}

/// The view of an optional string: the character sequence, if set.
pub open spec fn opt_str_view(o: Option<String>) -> Option<Seq<char>> {
    match o {
        Some(s) => Some(s@),
        None => None,
    }
}

impl View for StoredEmbedField {
    type V = SpecField;

    open spec fn view(&self) -> SpecField {
        SpecField { name: self.name@, value: self.value@, inline: self.inline }
    }
}

impl View for StoredEmbedAuthor {
    type V = SpecAuthor;

    open spec fn view(&self) -> SpecAuthor {
        SpecAuthor { name: self.name@, url: opt_str_view(self.url), icon_url: opt_str_view(
            self.icon_url,
        ) }
    }
}

impl View for StoredEmbedFooter {
    type V = SpecFooter;

    open spec fn view(&self) -> SpecFooter {
        SpecFooter { text: self.text@, icon_url: opt_str_view(self.icon_url) }
    }
}

impl View for StoredEmbed {
    type V = SpecEmbed;

    open spec fn view(&self) -> SpecEmbed {
        SpecEmbed {
            author: match self.author {
                Some(a) => Some(a@),
                None => None,
            },
            colour: self.colour as int,
            title: opt_str_view(self.title),
            url: opt_str_view(self.url),
            description: opt_str_view(self.description),
            fields: self.fields@.map_values(|f: StoredEmbedField| f@),
            image_url: opt_str_view(self.image_url),
            thumbnail_url: opt_str_view(self.thumbnail_url),
            footer: match self.footer {
                Some(f) => Some(f@),
                None => None,
            },
            timestamp: match self.timestamp {
                Some(t) => Some(t as int),
                None => None,
            },
        }
    }
}

/// The character count of an optional character sequence.
pub open spec fn opt_chars(o: Option<Seq<char>>) -> int {
    match o {
        Some(s) => s.len() as int,
        None => 0,
    }
}

/// The character count contributed by a sequence of embed fields:
/// each field counts its name and its value.
pub open spec fn spec_fields_chars(fields: Seq<SpecField>) -> int
    decreases fields.len(),
{
    if fields.len() == 0 {
        0
    } else {
        spec_fields_chars(fields.drop_last()) + fields.last().name.len()
            + fields.last().value.len()
    }
}

/// The aggregate character count of an embed: title, description, every
/// field name and value, footer text and author name.
pub open spec fn spec_total_chars(e: SpecEmbed) -> int {
    opt_chars(e.title) + opt_chars(e.description) + spec_fields_chars(e.fields) + (match e.footer {
        Some(f) => f.text.len() as int,
        None => 0,
    }) + (match e.author {
        Some(a) => a.name.len() as int,
        None => 0,
    })
}

/// The per-part character ceilings that a validated embed obeys.
pub open spec fn spec_meets_caps(e: SpecEmbed) -> bool {
    &&& opt_chars(e.title) <= 256
    &&& opt_chars(e.description) <= 4096
    &&& e.fields.len() <= 25
    &&& (forall|i: int|
        0 <= i < e.fields.len() ==> #[trigger] e.fields[i].name.len() <= 256
            && e.fields[i].value.len() <= 1024)
    &&& (match e.footer {
        Some(f) => f.text.len() <= 2048,
        None => true,
    })
    &&& (match e.author {
        Some(a) => a.name.len() <= 256,
        None => true,
    })
}

/// Every prefix of a field list contributes no more characters than the whole.
pub proof fn lemma_fields_chars_take(fields: Seq<SpecField>, n: int)
    requires
        0 <= n <= fields.len(),
    ensures
        spec_fields_chars(fields.take(n)) <= spec_fields_chars(fields),
        spec_fields_chars(fields) >= 0,
    decreases fields.len(),
{
    if fields.len() == 0 {
        assert(fields.take(n) =~= fields);
    } else if n == fields.len() {
        assert(fields.take(n) =~= fields);
        lemma_fields_chars_take(fields.drop_last(), fields.len() - 1);
    } else {
        assert(fields.take(n) =~= fields.drop_last().take(n));
        lemma_fields_chars_take(fields.drop_last(), n);
    }
}

/// A capped embed stays well under the largest sum the parts allow.
pub proof fn lemma_caps_bound_total(e: SpecEmbed)
    requires
        spec_meets_caps(e),
    ensures
        0 <= spec_total_chars(e) <= 38656,
{
    lemma_fields_chars_bound(e.fields);
}

/// A field list of at most 25 capped fields holds at most 25 * 1280 characters.
proof fn lemma_fields_chars_bound(fields: Seq<SpecField>)
    requires
        fields.len() <= 25,
        forall|i: int|
            0 <= i < fields.len() ==> #[trigger] fields[i].name.len() <= 256
                && fields[i].value.len() <= 1024,
    ensures
        0 <= spec_fields_chars(fields) <= fields.len() * 1280,
    decreases fields.len(),
{
    if fields.len() > 0 {
        lemma_fields_chars_bound(fields.drop_last());
    }
}

impl StoredEmbed {
    /// Create a new stored embed with nothing set.
    pub fn new() -> (e: Self)
        ensures
            e.author is None,
            e.colour == 0,
            e.title is None,
            e.url is None,
            e.description is None,
            e.fields@ =~= Seq::<StoredEmbedField>::empty(),
            e.image_url is None,
            e.thumbnail_url is None,
            e.footer is None,
            e.timestamp is None,
    {
        Self {
            author: None,
            colour: 0,
            title: None,
            url: None,
            description: None,
            fields: Vec::new(),
            image_url: None,
            thumbnail_url: None,
            footer: None,
            timestamp: None,
        }
    }

    /// Set the embed's author.
    pub fn author(self, author: StoredEmbedAuthor) -> (e: Self)
        ensures
            e == (Self { author: Some(author), ..self }),
    {
        Self { author: Some(author), ..self }
    }

    /// Set the embed's colour.
    pub fn colour(self, colour: i32) -> (e: Self)
        ensures
            e == (Self { colour: colour, ..self }),
    {
        Self { colour: colour, ..self }
    }

    /// Set the embed's title.
    pub fn title(self, title: String) -> (e: Self)
        ensures
            e == (Self { title: Some(title), ..self }),
    {
        Self { title: Some(title), ..self }
    }

    /// Set the embed's url.
    pub fn url(self, url: String) -> (e: Self)
        ensures
            e == (Self { url: Some(url), ..self }),
    {
        Self { url: Some(url), ..self }
    }

    /// Set the embed's description.
    pub fn description(self, description: String) -> (e: Self)
        ensures
            e == (Self { description: Some(description), ..self }),
    {
        Self { description: Some(description), ..self }
    }

    /// Add a field to the embed.
    pub fn field(self, name: String, value: String, inline: bool) -> (e: Self)
        ensures
            e.fields@ == self.fields@.push(StoredEmbedField { name, value, inline }),
            e.author == self.author,
            e.colour == self.colour,
            e.title == self.title,
            e.url == self.url,
            e.description == self.description,
            e.image_url == self.image_url,
            e.thumbnail_url == self.thumbnail_url,
            e.footer == self.footer,
            e.timestamp == self.timestamp,
    {
        let mut fields = self.fields;
        fields.push(StoredEmbedField { name, value, inline });
        Self { fields, ..self }
    }

    /// Set the embed's image.
    pub fn image(self, image_url: String) -> (e: Self)
        ensures
            e == (Self { image_url: Some(image_url), ..self }),
    {
        Self { image_url: Some(image_url), ..self }
    }

    /// Set the embed's thumbnail.
    pub fn thumbnail(self, thumbnail_url: String) -> (e: Self)
        ensures
            e == (Self { thumbnail_url: Some(thumbnail_url), ..self }),
    {
        Self { thumbnail_url: Some(thumbnail_url), ..self }
    }

    /// Set the embed's footer.
    pub fn footer(self, footer: StoredEmbedFooter) -> (e: Self)
        ensures
            e == (Self { footer: Some(footer), ..self }),
    {
        Self { footer: Some(footer), ..self }
    }

    /// Set the embed's timestamp.
    pub fn timestamp(self, timestamp: i64) -> (e: Self)
        ensures
            e == (Self { timestamp: Some(timestamp), ..self }),
    {
        Self { timestamp: Some(timestamp), ..self }
    }

    /// The total number of characters in the embed: title, description,
    /// field names and values, footer text and author name together.
    pub fn total_chars(&self) -> (n: usize)
        requires
            spec_total_chars(self@) <= usize::MAX,
        ensures
            n == spec_total_chars(self@),
    {
        proof {
            lemma_fields_chars_take(self@.fields, self@.fields.len() as int);
        }
        let mut n: usize = 0;
        n = n + match &self.title {
            Some(t) => t.as_str().unicode_len(),
            None => 0,
        };
        n = n + match &self.description {
            Some(d) => d.as_str().unicode_len(),
            None => 0,
        };
        let mut i: usize = 0;
        while i < self.fields.len()
            invariant
                0 <= i <= self@.fields.len(),
                self@.fields.len() == self.fields@.len(),
                spec_total_chars(self@) <= usize::MAX,
                n == opt_chars(self@.title) + opt_chars(self@.description) + spec_fields_chars(
                    self@.fields.take(i as int),
                ),
            decreases self@.fields.len() - i,
        {
            proof {
                lemma_fields_chars_take(self@.fields, i as int);
                lemma_fields_chars_take(self@.fields, i + 1 as int);
                assert(self@.fields.take(i + 1 as int).drop_last() =~= self@.fields.take(i as int));
                assert(self@.fields.take(i + 1 as int).last() == self@.fields[i as int]);
            }
            let f = &self.fields[i];
            n = n + f.name.as_str().unicode_len();
            n = n + f.value.as_str().unicode_len();
            i = i + 1;
        }
        proof {
            assert(self@.fields.take(self@.fields.len() as int) =~= self@.fields);
        }
        n = n + match &self.footer {
            Some(f) => f.text.as_str().unicode_len(),
            None => 0,
        };
        n = n + match &self.author {
            Some(a) => a.name.as_str().unicode_len(),
            None => 0,
        };
        n
    }
}

impl StoredEmbedAuthor {
    /// Create a new embed author using a given name.
    pub fn new(name: String) -> (a: Self)
        ensures
            a.name == name,
            a.url is None,
            a.icon_url is None,
    {
        Self { name, url: None, icon_url: None }
    }

    /// Set the embed author's name.
    pub fn name(self, name: String) -> (a: Self)
        ensures
            a == (Self { name: name, ..self }),
    {
        Self { name, ..self }
    }

    /// Set the embed author's url.
    pub fn url(self, url: String) -> (a: Self)
        ensures
            a == (Self { url: Some(url), ..self }),
    {
        Self { url: Some(url), ..self }
    }

    /// Set the embed author's icon url.
    pub fn icon_url(self, icon_url: String) -> (a: Self)
        ensures
            a == (Self { icon_url: Some(icon_url), ..self }),
    {
        Self { icon_url: Some(icon_url), ..self }
    }
}

impl StoredEmbedFooter {
    /// Create a new embed footer using a given piece of text.
    pub fn new(text: String) -> (f: Self)
        ensures
            f.text == text,
            f.icon_url is None,
    {
        Self { text, icon_url: None }
    }

    /// Set the embed footer's text.
    pub fn text(self, text: String) -> (f: Self)
        ensures
            f == (Self { text: text, ..self }),
    {
        Self { text, ..self }
    }

    /// Set the embed footer's icon url.
    pub fn icon_url(self, icon_url: String) -> (f: Self)
        ensures
            f == (Self { icon_url: Some(icon_url), ..self }),
    {
        Self { icon_url: Some(icon_url), ..self }
    }
}

} // verus!
