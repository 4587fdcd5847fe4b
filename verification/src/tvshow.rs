pub mod content_ratings;
pub mod keywords;
pub mod translations;
