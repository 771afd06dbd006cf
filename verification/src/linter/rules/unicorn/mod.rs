pub mod no_object_as_default_parameter;
