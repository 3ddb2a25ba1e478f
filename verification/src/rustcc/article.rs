//! Articles of the rustcc daily.
use vstd::prelude::*;
use vstd::string::*;

verus! {

/// An article: its id on rustcc and its title.
#[derive(Debug)]
pub struct Article {
    pub link: String,
    pub title: String,
}

impl Article {
    /// The title of the article.
    pub fn title(&self) -> (r: &str)
        ensures
            r@ == self.title@,
    {
        self.title.as_str()
    }

    /// The address of the article.
    pub fn to_string(&self) -> (r: String)
        ensures
            r@ == "https://rustcc.cn/article?id="@ + self.link@,
    {
        let mut r = String::from_str("https://rustcc.cn/article?id=");
        r.append(self.link.as_str());
        r
    }
}

/// The articles found on a section page.
#[derive(Debug)]
pub struct ArticleList {
    pub article_list: Vec<Article>,
}

impl ArticleList {
    /// Appends an article.
    pub fn push(&mut self, article: Article)
        ensures
            final(self).article_list@ == old(self).article_list@.push(article),
    {
        self.article_list.push(article);
    }
}

} // verus!
