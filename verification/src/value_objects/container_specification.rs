use vstd::prelude::*;

use crate::entities::job::names_view;
use crate::entities::step::opt_str;
use crate::text_map::TextMap;

verus! {

/// The user name and password used to pull a container image.
#[derive(Debug, Clone, PartialEq)]
pub struct ContainerCredentials {
    username: String,
    password: String,
}

impl ContainerCredentials {
    pub closed spec fn username_view(&self) -> Seq<char> { self.username@ }
    pub closed spec fn password_view(&self) -> Seq<char> { self.password@ }

    /// Credentials from a user name and a password.
    pub fn new(username: String, password: String) -> (r: Self)
        ensures
            r.username_view() == username@,
            r.password_view() == password@,
    {
        ContainerCredentials { username, password }
    }

    /// The user name.
    pub fn username(&self) -> (r: &str)
        ensures
            r@ == self.username_view(),
    {
        self.username.as_str()
    }

    /// The password.
    pub fn password(&self) -> (r: &str)
        ensures
            r@ == self.password_view(),
    {
        self.password.as_str()
    }
}

/// The container a job or a service runs in: image, credentials,
/// environment, ports, volumes and extra options.
#[derive(Debug, Clone, PartialEq)]
pub struct ContainerSpecification {
    image: String,
    credentials: Option<ContainerCredentials>,
    env: TextMap<String>,
    ports: Vec<String>,
    volumes: Vec<String>,
    options: Option<String>,
}

impl ContainerSpecification {
    pub closed spec fn image_view(&self) -> Seq<char> { self.image@ }
    pub closed spec fn credentials_view(&self) -> Option<ContainerCredentials> { self.credentials }
    pub closed spec fn env_view(&self) -> TextMap<String> { self.env }
    pub closed spec fn ports_view(&self) -> Seq<Seq<char>> { names_view(self.ports@) }
    pub closed spec fn volumes_view(&self) -> Seq<Seq<char>> { names_view(self.volumes@) }
    pub closed spec fn options_view(&self) -> Option<String> { self.options }

    /// A specification of `image` with nothing else set.
    pub fn new(image: String) -> (r: Self)
        ensures
            r.image_view() == image@,
            r.credentials_view() is None,
            r.env_view().wf(),
            r.env_view().entries().len() == 0,
            r.ports_view().len() == 0,
            r.volumes_view().len() == 0,
            r.options_view() is None,
    {
        let r = ContainerSpecification {
            image,
            credentials: None,
            env: TextMap::new(),
            ports: Vec::new(),
            volumes: Vec::new(),
            options: None,
        };
        r
    }

    /// Replaces the credentials.
    pub fn with_credentials(self, credentials: Option<ContainerCredentials>) -> (r: Self)
        ensures
            r.credentials_view() == credentials,
            r.image_view() == self.image_view(),
            r.env_view() == self.env_view(),
            r.ports_view() == self.ports_view(),
            r.volumes_view() == self.volumes_view(),
            r.options_view() == self.options_view(),
    {
        ContainerSpecification { credentials, ..self }
    }

    /// Replaces the environment.
    pub fn with_env(self, env: TextMap<String>) -> (r: Self)
        ensures
            r.env_view() == env,
            r.image_view() == self.image_view(),
            r.credentials_view() == self.credentials_view(),
            r.ports_view() == self.ports_view(),
            r.volumes_view() == self.volumes_view(),
            r.options_view() == self.options_view(),
    {
        ContainerSpecification { env, ..self }
    }

    /// Replaces the published ports.
    pub fn with_ports(self, ports: Vec<String>) -> (r: Self)
        ensures
            r.ports_view() == names_view(ports@),
            r.image_view() == self.image_view(),
            r.credentials_view() == self.credentials_view(),
            r.env_view() == self.env_view(),
            r.volumes_view() == self.volumes_view(),
            r.options_view() == self.options_view(),
    {
        ContainerSpecification { ports, ..self }
    }

    /// Replaces the mounted volumes.
    pub fn with_volumes(self, volumes: Vec<String>) -> (r: Self)
        ensures
            r.volumes_view() == names_view(volumes@),
            r.image_view() == self.image_view(),
            r.credentials_view() == self.credentials_view(),
            r.env_view() == self.env_view(),
            r.ports_view() == self.ports_view(),
            r.options_view() == self.options_view(),
    {
        ContainerSpecification { volumes, ..self }
    }

    /// Replaces the extra options.
    pub fn with_options(self, options: Option<String>) -> (r: Self)
        ensures
            r.options_view() == options,
            r.image_view() == self.image_view(),
            r.credentials_view() == self.credentials_view(),
            r.env_view() == self.env_view(),
            r.ports_view() == self.ports_view(),
            r.volumes_view() == self.volumes_view(),
    {
        ContainerSpecification { options, ..self }
    }

    /// The image.
    pub fn image(&self) -> (r: &str)
        ensures
            r@ == self.image_view(),
    {
        self.image.as_str()
    }

    /// The credentials, if any.
    pub fn credentials(&self) -> (r: Option<&ContainerCredentials>)
        ensures
            match r {
                Some(c) => self.credentials_view() == Some(*c),
                None => self.credentials_view() is None,
            },
    {
        match &self.credentials {
            Some(c) => Some(c),
            None => None,
        }
    }

    /// The environment.
    pub fn env(&self) -> (r: &TextMap<String>)
        ensures
            *r == self.env_view(),
    {
        &self.env
    }

    /// The published ports.
    pub fn ports(&self) -> (r: &[String])
        ensures
            names_view(r@) == self.ports_view(),
    {
        self.ports.as_slice()
    }

    /// The mounted volumes.
    pub fn volumes(&self) -> (r: &[String])
        ensures
            names_view(r@) == self.volumes_view(),
    {
        self.volumes.as_slice()
    }

    /// The extra options, if any.
    pub fn options(&self) -> (r: Option<&str>)
        ensures
            r is Some <==> self.options_view() is Some,
            r matches Some(s) ==> s@ == self.options_view().unwrap()@,
    {
        opt_str(&self.options)
    }
}

} // verus!
