use vstd::prelude::*;

verus! {

/// Validation limits and the whitelist of tags a post may carry.
#[derive(Clone, Debug, PartialEq, Eq)]
pub struct Config {
    pub max_tags_count: u8,
    pub max_content_len: u16,
    pub max_title_len: u8,
    pub tags: Vec<String>,
}

/// The mathematical value of a `Config`.
pub struct ConfigView {
    pub max_tags_count: u8,
    pub max_content_len: u16,
    pub max_title_len: u8,
    pub tags: Seq<Seq<char>>,
}

impl View for Config {
    type V = ConfigView;

    open spec fn view(&self) -> ConfigView {
        ConfigView {
            max_tags_count: self.max_tags_count,
            max_content_len: self.max_content_len,
            max_title_len: self.max_title_len,
            tags: self.tags.deep_view(),
        }
    }
}

/// Errors of the tag whitelist operations.
#[derive(Clone, Copy, Debug, PartialEq, Eq)]
pub enum ConfigError {
    TagExists,
    TagNotFound,
}

/// The text that reports a missing tag, naming it.
pub open spec fn not_found_text(tag: Seq<char>) -> Seq<char> {
    "Tag \""@ + tag + "\" not found"@
}

impl ConfigError {
    /// A human-readable account of the refusal of an operation on `tag`.
    pub fn message(&self, tag: &str) -> (r: String)
        ensures
            r@ == match *self {
                ConfigError::TagExists => "Ten tag już istnieje w config.tags"@,
                ConfigError::TagNotFound => not_found_text(tag@),
            },
    {
        match *self {
            ConfigError::TagExists => "Ten tag już istnieje w config.tags".to_owned(),
            ConfigError::TagNotFound => not_found_message(tag),
        }
    }
}

/// `Tag "<tag>" not found`.
pub fn not_found_message(tag: &str) -> (r: String)
    ensures
        r@ == not_found_text(tag@),
{
    "Tag \"".to_owned().concat(tag).concat("\" not found")
}

/// The whitelist after removing every occurrence of `tag`.
pub open spec fn without_tag(tags: Seq<Seq<char>>, tag: Seq<char>) -> Seq<Seq<char>> {
    tags.filter(|t: Seq<char>| t != tag)
}

/// Whether `v` holds a string equal to `s`.
pub fn contains_str(v: &Vec<String>, s: &String) -> (r: bool)
    ensures
        r == v.deep_view().contains(s@),
{
    let mut i: usize = 0;
    while i < v.len()
        invariant
            i <= v@.len(),
            forall|j: int| 0 <= j < i ==> v@[j]@ != s@,
        decreases v@.len() - i,
    {
        if v[i] == *s {
            assert(v.deep_view()[i as int] == s@);
            return true;
        }
        i = i + 1;
    }
    assert forall|j: int| 0 <= j < v.deep_view().len() implies v.deep_view()[j] != s@ by {
        assert(v.deep_view()[j] == v@[j]@);
    }
    false
}

impl Config {
    /// The default limits: three tags, 2000 bytes of content, 250 bytes of
    /// title, and an empty whitelist.
    pub fn new() -> (r: Config)
        ensures
            r@.max_tags_count == 3,
            r@.max_content_len == 2000,
            r@.max_title_len == 250,
            r@.tags == Seq::<Seq<char>>::empty(),
    {
        let r = Config {
            max_tags_count: 3,
            max_content_len: 2000,
            max_title_len: 250,
            tags: Vec::new(),
        };
        assert(r.tags.deep_view() =~= Seq::<Seq<char>>::empty());
        r
    }

    /// Appends `tag` to the whitelist, unless it is already there.
    pub fn add_tag(&mut self, tag: String) -> (r: Result<(), ConfigError>)
        ensures
            old(self)@.tags.contains(tag@) ==> r == Err::<(), ConfigError>(ConfigError::TagExists)
                && final(self)@ == old(self)@,
            !old(self)@.tags.contains(tag@) ==> r is Ok && final(self)@ == (ConfigView {
                tags: old(self)@.tags.push(tag@),
                ..old(self)@
            }),
    {
        if contains_str(&self.tags, &tag) {
            return Err(ConfigError::TagExists);
        }
        let ghost t = tag@;
        self.tags.push(tag);
        assert(self.tags.deep_view() =~= old(self)@.tags.push(t));
        Ok(())
    }

    /// Removes every occurrence of `tag` from the whitelist; fails when it
    /// holds none.
    pub fn remove_tag(&mut self, tag: &str) -> (r: Result<(), ConfigError>)
        ensures
            !old(self)@.tags.contains(tag@) ==> r == Err::<(), ConfigError>(
                ConfigError::TagNotFound,
            ) && final(self)@ == old(self)@,
            old(self)@.tags.contains(tag@) ==> r is Ok && final(self)@ == (ConfigView {
                tags: without_tag(old(self)@.tags, tag@),
                ..old(self)@
            }),
    {
        let tag_string = tag.to_owned();
        if !contains_str(&self.tags, &tag_string) {
            return Err(ConfigError::TagNotFound);
        }
        let ghost old_tags = self.tags.deep_view();
        let mut kept: Vec<String> = Vec::new();
        let mut i: usize = 0;
        while i < self.tags.len()
            invariant
                i <= self.tags@.len(),
                old_tags == self.tags.deep_view(),
                tag_string@ == tag@,
                kept.deep_view() == without_tag(old_tags.subrange(0, i as int), tag@),
            decreases self.tags@.len() - i,
        {
            proof {
                assert(old_tags.subrange(0, i + 1).drop_last() =~= old_tags.subrange(0, i as int));
                assert(old_tags.subrange(0, i + 1).last() == old_tags[i as int]);
                reveal(Seq::filter);
            }
            if self.tags[i] != tag_string {
                let ghost before = kept.deep_view();
                kept.push(self.tags[i].clone());
                assert(kept.deep_view() =~= before.push(old_tags[i as int]));
            }
            i = i + 1;
        }
        assert(old_tags.subrange(0, i as int) =~= old_tags);
        self.tags = kept;
        Ok(())
    }
}

} // verus!
