pub mod components_container;
