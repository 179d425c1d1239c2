//! The normalized record extracted from one post, and its ghost model.

use vstd::prelude::*;

verus! {

/// One extracted comment: who wrote it, when, and its formatted text.
pub struct Comment {
    pub author: String,
    pub date: String,
    pub content: String,
}

/// The mathematical model of a `Comment`.
pub struct CommentV {
    pub author: Seq<char>,
    pub date: Seq<char>,
    pub content: Seq<char>,
}

impl View for Comment {
    type V = CommentV;

    open spec fn view(&self) -> CommentV {
        CommentV { author: self.author@, date: self.date@, content: self.content@ }
    }
}

/// The normalized record of one post: a default-empty accumulator filled by
/// one extraction pass, then rendered. Absence is an empty string or `None`,
/// never a sentinel.
pub struct PostData {
    pub author: String,
    pub date: String,
    pub canonical_url: String,
    pub title: String,
    pub content: String,
    pub reshare_author: Option<String>,
    pub reshare_content: Option<String>,
    pub location: Option<String>,
    pub images: Vec<String>,
    pub video_url: Option<String>,
    pub links: Vec<(String, String)>,
    pub visibility: String,
    pub plus_ones: Vec<String>,
    pub comments: Vec<Comment>,
}

/// The mathematical model of a `PostData`.
pub struct PostDataV {
    pub author: Seq<char>,
    pub date: Seq<char>,
    pub canonical_url: Seq<char>,
    pub title: Seq<char>,
    pub content: Seq<char>,
    pub reshare_author: Option<Seq<char>>,
    pub reshare_content: Option<Seq<char>>,
    pub location: Option<Seq<char>>,
    pub images: Seq<Seq<char>>,
    pub video_url: Option<Seq<char>>,
    pub links: Seq<(Seq<char>, Seq<char>)>,
    pub visibility: Seq<char>,
    pub plus_ones: Seq<Seq<char>>,
    pub comments: Seq<CommentV>,
}

/// The view of an optional string.
pub open spec fn opt_view(o: Option<String>) -> Option<Seq<char>> {
    match o {
        Some(s) => Some(s@),
        None => None,
    }
}

impl View for PostData {
    type V = PostDataV;

    open spec fn view(&self) -> PostDataV {
        PostDataV {
            author: self.author@,
            date: self.date@,
            canonical_url: self.canonical_url@,
            title: self.title@,
            content: self.content@,
            reshare_author: opt_view(self.reshare_author),
            reshare_content: opt_view(self.reshare_content),
            location: opt_view(self.location),
            images: self.images@.map_values(|s: String| s@),
            video_url: opt_view(self.video_url),
            links: self.links@.map_values(|p: (String, String)| (p.0@, p.1@)),
            visibility: self.visibility@,
            plus_ones: self.plus_ones@.map_values(|s: String| s@),
            comments: self.comments@.map_values(|c: Comment| c@),
        }
    }
}

/// The record before extraction: every field empty or absent.
pub open spec fn empty_post() -> PostDataV {
    PostDataV {
        author: Seq::<char>::empty(),
        date: Seq::<char>::empty(),
        canonical_url: Seq::<char>::empty(),
        title: Seq::<char>::empty(),
        content: Seq::<char>::empty(),
        reshare_author: None,
        reshare_content: None,
        location: None,
        images: Seq::<Seq<char>>::empty(),
        video_url: None,
        links: Seq::<(Seq<char>, Seq<char>)>::empty(),
        visibility: Seq::<char>::empty(),
        plus_ones: Seq::<Seq<char>>::empty(),
        comments: Seq::<CommentV>::empty(),
    }
}

impl Default for PostData {
    /// The default record is the empty accumulator.
    fn default() -> (d: PostData)
        ensures
            d@ == empty_post(),
    {
        let d = PostData {
            author: String::new(),
            date: String::new(),
            canonical_url: String::new(),
            title: String::new(),
            content: String::new(),
            reshare_author: None,
            reshare_content: None,
            location: None,
            images: Vec::new(),
            video_url: None,
            links: Vec::new(),
            visibility: String::new(),
            plus_ones: Vec::new(),
            comments: Vec::new(),
        };
        proof {
            assert(d@.images =~= empty_post().images);
            assert(d@.links =~= empty_post().links);
            assert(d@.plus_ones =~= empty_post().plus_ones);
            assert(d@.comments =~= empty_post().comments);
            assert(d@ == empty_post());
        }
        d
    }
}

} // verus!
