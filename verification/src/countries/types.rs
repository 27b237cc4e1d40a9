pub mod country;
