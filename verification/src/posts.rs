//! Posts, as the cache service keeps them: a hash per post under the key
//! `post:` and the number, a list `posts` of the numbers with the newest
//! first, and a pointer from each URL fragment to a post's number.

use vstd::prelude::*;
use vstd::string::StringExecFns;
use vstd::utf8::encode_utf8;
use crate::decimal::{decimal, decimal_text, lemma_parse_decimal, parse_u64, parsed_u64};
use crate::error::{Error, Resource};
use crate::store::{field_value, pairs_map};
use crate::users::{number_field, read_number, FieldError, User};

verus! {

/// Posts on one page of the index.
pub const PAGE_SIZE: i64 = 10;

/// A post.
#[derive(Debug)]
pub struct Post {
    pub id: u64,
    pub author_id: u64,
    /// When the post was written, in milliseconds since the Unix epoch.
    pub date: u64,
    pub content: String,
    pub title: String,
    pub url_fragment: String,
    /// The author's name, where it was looked up.
    pub author: Option<String>,
}

/// What a post is, with its texts as texts.
pub ghost struct PostView {
    pub id: u64,
    pub author_id: u64,
    pub date: u64,
    pub content: Seq<char>,
    pub title: Seq<char>,
    pub url_fragment: Seq<char>,
    pub author: Option<Seq<char>>,
}

impl View for Post {
    type V = PostView;

    open spec fn view(&self) -> PostView {
        PostView {
            id: self.id,
            author_id: self.author_id,
            date: self.date,
            content: self.content@,
            title: self.title@,
            url_fragment: self.url_fragment@,
            author: match self.author {
                Some(name) => Some(name@),
                None => None,
            },
        }
    }
}

/// What a hash of the cache holds of a post: a post, or nothing where the
/// hash is empty.
#[derive(Debug)]
pub struct MaybePost(pub Option<Post>);

/// One page of posts.
#[derive(Debug)]
pub struct PostPage {
    pub posts: Vec<Post>,
    /// Whether there are older posts than these.
    pub has_more: bool,
    /// The number of all posts.
    pub total: i64,
}

/// Which posts an index page shows.
#[derive(Debug, Clone, Copy, PartialEq, Eq, Structural)]
pub struct PageWindow {
    /// The number of the page, from 1.
    pub current_page: i64,
    /// How many posts to show.
    pub limit: i64,
    /// How many newer posts to pass over.
    pub skip: i64,
}

/// The cache key of the post with the number `id`.
pub open spec fn post_key_text(id: u64) -> Seq<char> {
    "post:"@ + decimal(id as nat)
}

/// The cache key of the pointer from a URL fragment to a post.
pub open spec fn fragment_key_text(fragment: Seq<char>) -> Seq<char> {
    "postFragment:"@ + fragment
}

/// The cache key of the post with the number `id`.
pub fn post_key(id: u64) -> (key: String)
    ensures
        key@ == post_key_text(id),
{
    String::from_str("post:").concat(decimal_text(id).as_str())
}

/// The cache key of the pointer from a URL fragment to a post.
pub fn fragment_key(fragment: &str) -> (key: String)
    ensures
        key@ == fragment_key_text(fragment@),
{
    String::from_str("postFragment:").concat(fragment)
}

/// How a request names a post: by its number, or by its URL fragment.
#[derive(Debug)]
pub enum PostRef {
    Id(u64),
    Fragment(String),
}

/// Reads the part of a path that names a post. What reads as a number is
/// the post's number; anything else is its URL fragment.
pub fn post_ref(segment: String) -> (r: PostRef)
    ensures
        match parsed_u64(encode_utf8(segment@)) {
            Some(id) => r == PostRef::Id(id),
            None => r == PostRef::Fragment(segment),
        },
{
    match parse_u64(segment.as_str()) {
        Some(id) => PostRef::Id(id),
        None => PostRef::Fragment(segment),
    }
}

/// The number of the page that a request names: pages count from 1, and
/// both no page and page 0 mean the first.
pub open spec fn current_page_of(page: Option<i64>) -> int {
    match page {
        Some(number) => if number == 0 {
            1
        } else {
            number as int
        },
        None => 1,
    }
}

/// The window of the index page that a request names: `PAGE_SIZE` posts
/// after the posts of the pages before it. `None` where the page is so far
/// out that the count of the posts before it has no `i64`.
pub fn page_window(page: Option<i64>) -> (r: Option<PageWindow>)
    ensures
        match r {
            Some(window) => {
                &&& window.current_page == current_page_of(page)
                &&& window.limit == PAGE_SIZE
                &&& window.skip == (current_page_of(page) - 1) * PAGE_SIZE
            },
            None => {
                ||| (current_page_of(page) - 1) * PAGE_SIZE < i64::MIN
                ||| (current_page_of(page) - 1) * PAGE_SIZE > i64::MAX
            },
        },
{
    let number: i64 = match page {
        Some(number) => number,
        None => 1,
    };
    let current_page: i64 = if number == 0 {
        1
    } else {
        number
    };
    let before = match current_page.checked_sub(1) {
        Some(before) => before,
        None => {
            return None;
        },
    };
    match before.checked_mul(PAGE_SIZE) {
        Some(skip) => Some(PageWindow { current_page, limit: PAGE_SIZE, skip }),
        None => None,
    }
}

/// The first and the last index to ask the list of posts for: `limit`
/// posts from index `skip` on. `None` where the last index has no `i64`.
pub fn list_range(limit: i64, skip: i64) -> (r: Option<(i64, i64)>)
    ensures
        match r {
            Some((first, last)) => first == skip && last == limit - 1 + skip,
            None => limit - 1 + skip < i64::MIN || limit - 1 + skip > i64::MAX,
        },
{
    let wide: i128 = limit as i128 - 1 + skip as i128;
    if wide < i64::MIN as i128 || wide > i64::MAX as i128 {
        None
    } else {
        Some((skip, wide as i64))
    }
}

impl PostPage {
    /// A page of `posts`, out of `total` posts in all, that was asked for
    /// as `limit` posts after `skip`. There are more where the total goes
    /// beyond the end of the page.
    pub fn new(posts: Vec<Post>, total: i64, limit: i64, skip: i64) -> (page: PostPage)
        ensures
            page.posts == posts,
            page.total == total,
            page.has_more == (total > limit + skip),
    {
        let has_more = total as i128 > limit as i128 + skip as i128;
        PostPage { posts, has_more, total }
    }
}

impl MaybePost {
    /// What `from_hash` makes of a hash.
    pub open spec fn read(hash: Seq<(String, String)>) -> Result<Option<PostView>, FieldError> {
        let fields = pairs_map(hash);
        if hash.len() == 0 {
            Ok(None)
        } else if number_field(fields, "id"@) is None {
            Err(FieldError::PostId)
        } else if number_field(fields, "authorId"@) is None {
            Err(FieldError::PostAuthorId)
        } else if number_field(fields, "date"@) is None {
            Err(FieldError::PostDate)
        } else if !fields.contains_key("content"@) {
            Err(FieldError::PostContent)
        } else if !fields.contains_key("title"@) {
            Err(FieldError::PostTitle)
        } else if !fields.contains_key("urlFragment"@) {
            Err(FieldError::PostUrlFragment)
        } else {
            Ok(
                Some(
                    PostView {
                        id: number_field(fields, "id"@).unwrap(),
                        author_id: number_field(fields, "authorId"@).unwrap(),
                        date: number_field(fields, "date"@).unwrap(),
                        content: fields["content"@],
                        title: fields["title"@],
                        url_fragment: fields["urlFragment"@],
                        author: None,
                    },
                ),
            )
        }
    }

    /// The post, if there is one.
    pub open spec fn view(self) -> Option<PostView> {
        match self.0 {
            Some(post) => Some(post@),
            None => None,
        }
    }

    /// Reads a post out of a hash of the cache. An empty hash is no post;
    /// a hash with fields needs `id`, `authorId` and `date` as numbers, and
    /// `content`, `title` and `urlFragment`. The first of these that is
    /// missing is the error. The author's name is not part of the hash.
    pub fn from_hash(hash: &Vec<(String, String)>) -> (r: Result<MaybePost, FieldError>)
        ensures
            match r {
                Ok(post) => MaybePost::read(hash@) == Ok::<_, FieldError>(post.view()),
                Err(e) => MaybePost::read(hash@) == Err::<Option<PostView>, _>(e),
            },
    {
        if hash.len() == 0 {
            return Ok(MaybePost(None));
        }
        let id = match read_number(hash, "id") {
            Some(id) => id,
            None => {
                return Err(FieldError::PostId);
            },
        };
        let author_id = match read_number(hash, "authorId") {
            Some(author_id) => author_id,
            None => {
                return Err(FieldError::PostAuthorId);
            },
        };
        let date = match read_number(hash, "date") {
            Some(date) => date,
            None => {
                return Err(FieldError::PostDate);
            },
        };
        let content = match field_value(hash, "content") {
            Some(content) => content,
            None => {
                return Err(FieldError::PostContent);
            },
        };
        let title = match field_value(hash, "title") {
            Some(title) => title,
            None => {
                return Err(FieldError::PostTitle);
            },
        };
        let url_fragment = match field_value(hash, "urlFragment") {
            Some(url_fragment) => url_fragment,
            None => {
                return Err(FieldError::PostUrlFragment);
            },
        };
        Ok(MaybePost(Some(Post { id, author_id, date, content, title, url_fragment, author: None })))
    }

    /// The post, if there is one.
    pub fn into_option(self) -> (post: Option<Post>)
        ensures
            post == self.0,
    {
        self.0
    }

    /// The post with the number `id` that was asked for, or the error that
    /// says that there is none.
    pub fn found(self, id: u64) -> (r: Result<Post, Error>)
        ensures
            match self.0 {
                Some(post) => r == Ok::<Post, Error>(post),
                None => r == Err::<Post, Error>(Error::ResourceNotFound(Resource::Post(id))),
            },
    {
        match self.0 {
            Some(post) => Ok(post),
            None => Err(Error::ResourceNotFound(Resource::Post(id))),
        }
    }
}

/// The number of the post that a URL fragment points to, or the error that
/// says that the fragment points nowhere.
pub fn fragment_target(pointer: Option<u64>) -> (r: Result<u64, Error>)
    ensures
        match pointer {
            Some(id) => r == Ok::<u64, Error>(id),
            None => r == Err::<u64, Error>(Error::NotFound),
        },
{
    match pointer {
        Some(id) => Ok(id),
        None => Err(Error::NotFound),
    }
}

/// Whether the post with the number `id` can be updated: only a post that
/// exists can.
pub fn updatable(id: u64, present: bool) -> (r: Result<u64, Error>)
    ensures
        r == if present {
            Ok::<u64, Error>(id)
        } else {
            Err::<u64, Error>(Error::ResourceNotFound(Resource::Post(id)))
        },
{
    if present {
        Ok(id)
    } else {
        Err(Error::ResourceNotFound(Resource::Post(id)))
    }
}

/// Strictly ascending: sorted, and no number twice.
pub open spec fn ascending(ids: Seq<u64>) -> bool {
    forall|i: int, j: int| 0 <= i < j < ids.len() ==> ids[i] < ids[j]
}

/// `id` is the author of one of the first `upto` posts.
pub open spec fn is_author(posts: Seq<Post>, upto: int, id: u64) -> bool {
    exists|k: int| 0 <= k < upto && k < posts.len() && #[trigger] posts[k].author_id == id
}

/// The numbers of the authors of `posts`, each once, in ascending order.
pub fn author_ids(posts: &Vec<Post>) -> (ids: Vec<u64>)
    ensures
        ascending(ids@),
        forall|id: u64| ids@.contains(id) <==> is_author(posts@, posts@.len() as int, id),
{
    let mut ids: Vec<u64> = Vec::new();
    let mut i: usize = 0;
    while i < posts.len()
        invariant
            i <= posts@.len(),
            ascending(ids@),
            forall|id: u64| ids@.contains(id) <==> is_author(posts@, i as int, id),
        decreases posts@.len() - i,
    {
        let author: u64 = posts[i].author_id;
        let mut at: usize = 0;
        while at < ids.len() && ids[at] < author
            invariant
                at <= ids@.len(),
                ascending(ids@),
                forall|j: int| 0 <= j < at ==> ids@[j] < author,
            decreases ids@.len() - at,
        {
            at += 1;
        }
        let ghost before = ids@;
        if at < ids.len() && ids[at] == author {
            assert(before[at as int] == author);
            assert(before.contains(author));
        } else {
            ids.insert(at, author);
            proof {
                assert(ids@[at as int] == author);
                assert forall|id: u64| ids@.contains(id) <==> (before.contains(id) || id
                    == author) by {
                    if ids@.contains(id) {
                        let j = choose|j: int| 0 <= j < ids@.len() && ids@[j] == id;
                        if j < at {
                            assert(before[j] == id);
                        } else if j > at {
                            assert(before[j - 1] == id);
                        }
                    }
                    if before.contains(id) {
                        let j = choose|j: int| 0 <= j < before.len() && before[j] == id;
                        if j < at {
                            assert(ids@[j] == id);
                        } else {
                            assert(ids@[j + 1] == id);
                        }
                    }
                }
                assert(ascending(ids@)) by {
                    assert forall|a: int, b: int| 0 <= a < b < ids@.len() implies ids@[a]
                        < ids@[b] by {
                        let pa = if a < at { a } else { a - 1 };
                        let pb = if b < at { b } else { b - 1 };
                        if a != at && b != at {
                            assert(before[pa] < before[pb]);
                        } else if a == at {
                            assert(ids@[b] == before[b - 1]);
                            if at < b - 1 {
                                assert(before[at as int] < before[b - 1]);
                            }
                        } else {
                            assert(ids@[a] == before[a]);
                        }
                    }
                }
            }
        }
        proof {
            assert forall|id: u64| ids@.contains(id) <==> (before.contains(id) || id
                == author) by {}
            assert forall|id: u64| ids@.contains(id) <==> is_author(
                posts@,
                i as int + 1,
                id,
            ) by {
                assert(before.contains(id) <==> is_author(posts@, i as int, id));
                if is_author(posts@, i as int + 1, id) {
                    let k = choose|k: int|
                        0 <= k < i + 1 && k < posts@.len() && #[trigger] posts@[k].author_id
                            == id;
                    if k < i {
                        assert(is_author(posts@, i as int, id));
                    } else {
                        assert(id == author);
                    }
                }
                if is_author(posts@, i as int, id) {
                    let k = choose|k: int|
                        0 <= k < i && k < posts@.len() && #[trigger] posts@[k].author_id == id;
                    assert(posts@[k].author_id == id);
                    assert(is_author(posts@, i as int + 1, id));
                }
                if id == author {
                    assert(posts@[i as int].author_id == id);
                    assert(is_author(posts@, i as int + 1, id));
                }
            }
        }
        i += 1;
    }
    ids
}

/// The name of the author with the number `id` among `authors`. Where two
/// carry the number, the later one counts.
pub open spec fn author_name(authors: Seq<User>, id: u64) -> Option<Seq<char>>
    decreases authors.len(),
{
    if authors.len() == 0 {
        None
    } else if authors.last().id == id {
        Some(authors.last().name@)
    } else {
        author_name(authors.drop_last(), id)
    }
}

/// Looks up the name of the author with the number `id`.
pub fn find_author(authors: &Vec<User>, id: u64) -> (name: Option<String>)
    ensures
        match name {
            Some(name) => author_name(authors@, id) == Some(name@),
            None => author_name(authors@, id) is None,
        },
{
    let mut i: usize = authors.len();
    proof {
        assert(authors@.subrange(0, i as int) =~= authors@);
    }
    while i > 0
        invariant
            i <= authors@.len(),
            author_name(authors@, id) == author_name(authors@.subrange(0, i as int), id),
        decreases i,
    {
        i -= 1;
        let ghost upto = authors@.subrange(0, i + 1);
        proof {
            assert(upto.drop_last() =~= authors@.subrange(0, i as int));
            assert(upto.last() == authors@[i as int]);
        }
        if authors[i].id == id {
            return Some(authors[i].name.clone());
        }
    }
    proof {
        assert(authors@.subrange(0, 0) =~= Seq::<User>::empty());
    }
    None
}

/// The posts with their authors' names filled in from `authors`. A post
/// whose author is not among them has no name; nothing else changes.
pub fn attach_authors(posts: Vec<Post>, authors: &Vec<User>) -> (named: Vec<Post>)
    ensures
        named@.len() == posts@.len(),
        forall|i: int|
            0 <= i < posts@.len() ==> (#[trigger] named@[i])@ == (PostView {
                author: author_name(authors@, posts@[i].author_id),
                ..posts@[i]@
            }),
{
    let mut named: Vec<Post> = Vec::new();
    let ghost all = posts@;
    for post in it: posts
        invariant
            it.seq() == all,
            named@.len() == it.index(),
            forall|i: int|
                0 <= i < it.index() ==> (#[trigger] named@[i])@ == (PostView {
                    author: author_name(authors@, all[i].author_id),
                    ..all[i]@
                }),
    {
        let author = find_author(authors, post.author_id);
        named.push(
            Post {
                id: post.id,
                author_id: post.author_id,
                date: post.date,
                content: post.content,
                title: post.title,
                url_fragment: post.url_fragment,
                author,
            },
        );
    }
    named
}

/// The names of a post's fields are six different names.
pub proof fn lemma_field_names_differ()
    ensures
        "id"@ != "title"@,
        "id"@ != "content"@,
        "id"@ != "date"@,
        "id"@ != "authorId"@,
        "id"@ != "urlFragment"@,
        "title"@ != "content"@,
        "title"@ != "date"@,
        "title"@ != "authorId"@,
        "title"@ != "urlFragment"@,
        "content"@ != "date"@,
        "content"@ != "authorId"@,
        "content"@ != "urlFragment"@,
        "date"@ != "authorId"@,
        "date"@ != "urlFragment"@,
        "authorId"@ != "urlFragment"@,
{
    reveal_strlit("id");
    reveal_strlit("title");
    reveal_strlit("content");
    reveal_strlit("date");
    reveal_strlit("authorId");
    reveal_strlit("urlFragment");
    assert("id"@[0] == 'i' && "title"@[0] == 't' && "content"@[0] == 'c' && "date"@[0] == 'd'
        && "authorId"@[0] == 'a' && "urlFragment"@[0] == 'u');
}

/// A list of pairs, text by text.
pub open spec fn fields_text(pairs: Seq<(String, String)>) -> Seq<(Seq<char>, Seq<char>)> {
    Seq::new(pairs.len(), |i: int| (pairs[i].0@, pairs[i].1@))
}

impl Post {
    /// The post as it is first stored: under the number `id` that the
    /// cache handed out, written by the user `author_id` at `now`. Whatever
    /// the caller sent for these, and for the author's name, is dropped.
    pub fn stamped(self, id: u64, author_id: u64, now: u64) -> (post: Post)
        ensures
            post@ == (PostView { id, author_id, date: now, ..self@ }),
    {
        Post {
            id,
            author_id,
            date: now,
            content: self.content,
            title: self.title,
            url_fragment: self.url_fragment,
            author: self.author,
        }
    }

    /// The fields of the hash of a new post. Read back from the cache they
    /// are the post again, without its author's name.
    pub fn created_fields(&self) -> (fields: Vec<(String, String)>)
        ensures
            fields_text(fields@) == seq![
                ("id"@, decimal(self.id as nat)),
                ("title"@, self.title@),
                ("content"@, self.content@),
                ("date"@, decimal(self.date as nat)),
                ("authorId"@, decimal(self.author_id as nat)),
                ("urlFragment"@, self.url_fragment@),
            ],
            MaybePost::read(fields@) == Ok::<Option<PostView>, FieldError>(
                Some(PostView { author: None, ..self@ }),
            ),
    {
        let mut fields: Vec<(String, String)> = Vec::new();
        fields.push((String::from_str("id"), decimal_text(self.id)));
        fields.push((String::from_str("title"), self.title.clone()));
        fields.push((String::from_str("content"), self.content.clone()));
        fields.push((String::from_str("date"), decimal_text(self.date)));
        fields.push((String::from_str("authorId"), decimal_text(self.author_id)));
        fields.push((String::from_str("urlFragment"), self.url_fragment.clone()));
        assert(fields_text(fields@) =~= seq![
            ("id"@, decimal(self.id as nat)),
            ("title"@, self.title@),
            ("content"@, self.content@),
            ("date"@, decimal(self.date as nat)),
            ("authorId"@, decimal(self.author_id as nat)),
            ("urlFragment"@, self.url_fragment@),
        ]);
        proof {
            lemma_field_names_differ();
            lemma_parse_decimal(self.id);
            lemma_parse_decimal(self.date);
            lemma_parse_decimal(self.author_id);
            let f = fields@;
            assert(fields_text(f)[0] == (f[0].0@, f[0].1@));
            assert(fields_text(f)[1] == (f[1].0@, f[1].1@));
            assert(fields_text(f)[2] == (f[2].0@, f[2].1@));
            assert(fields_text(f)[3] == (f[3].0@, f[3].1@));
            assert(fields_text(f)[4] == (f[4].0@, f[4].1@));
            assert(fields_text(f)[5] == (f[5].0@, f[5].1@));
            assert(crate::store::distinct_names(f));
            crate::store::lemma_last_name(f, 0);
            crate::store::lemma_last_name(f, 1);
            crate::store::lemma_last_name(f, 2);
            crate::store::lemma_last_name(f, 3);
            crate::store::lemma_last_name(f, 4);
            crate::store::lemma_last_name(f, 5);
        }
        fields
    }

    /// The fields of a post's hash that an update writes. The number, the
    /// author and the date stay as they are.
    pub fn updated_fields(&self) -> (fields: Vec<(String, String)>)
        ensures
            fields_text(fields@) == seq![
                ("title"@, self.title@),
                ("content"@, self.content@),
                ("urlFragment"@, self.url_fragment@),
            ],
    {
        let mut fields: Vec<(String, String)> = Vec::new();
        fields.push((String::from_str("title"), self.title.clone()));
        fields.push((String::from_str("content"), self.content.clone()));
        fields.push((String::from_str("urlFragment"), self.url_fragment.clone()));
        assert(fields_text(fields@) =~= seq![
            ("title"@, self.title@),
            ("content"@, self.content@),
            ("urlFragment"@, self.url_fragment@),
        ]);
        fields
    }
}

} // verus!
